use vstd::prelude::*;
use vstd::string::StrSliceExecFns;

verus! {

/// The characters of `s`, in order, as a vector.
pub fn chars_of(s: &str) -> (r: Vec<char>)
    ensures
        r@ == s@,
{
    let n = s.unicode_len();
    let mut r: Vec<char> = Vec::new();
    let mut i: usize = 0;
    while i < n
        invariant
            n == s@.len(),
            i <= n,
            r@ == s@.subrange(0, i as int),
        decreases n - i,
    {
        r.push(s.get_char(i));
        i = i + 1;
        proof {
            assert(r@ =~= s@.subrange(0, i as int));
        }
    }
    proof {
        assert(r@ =~= s@);
    }
    r
}

/// Relies on `Iterator::collect` for `String`: the result holds exactly the
/// `char` items of the iterator, in order.
#[verifier::external_body]
pub(crate) fn string_from_chars(v: &Vec<char>) -> (r: String)
    ensures
        r@ == v@,
{
    v.iter().collect()
}

/// The decimal digit `d` as a character.
pub open spec fn spec_digit(d: int) -> char
    recommends
        0 <= d < 10,
{
    if d == 0 {
        '0'
    } else if d == 1 {
        '1'
    } else if d == 2 {
        '2'
    } else if d == 3 {
        '3'
    } else if d == 4 {
        '4'
    } else if d == 5 {
        '5'
    } else if d == 6 {
        '6'
    } else if d == 7 {
        '7'
    } else if d == 8 {
        '8'
    } else {
        '9'
    }
}

/// The decimal notation of `n`, without sign or leading zeros
/// (a single `'0'` for zero).
pub open spec fn spec_dec(n: int) -> Seq<char>
    recommends
        n >= 0,
    decreases n,
{
    if n < 10 {
        seq![spec_digit(n)]
    } else {
        spec_dec(n / 10).push(spec_digit(n % 10))
    }
}

fn digit_char(d: u64) -> (c: char)
    requires
        d < 10,
    ensures
        c == spec_digit(d as int),
{
    match d {
        0 => '0',
        1 => '1',
        2 => '2',
        3 => '3',
        4 => '4',
        5 => '5',
        6 => '6',
        7 => '7',
        8 => '8',
        _ => '9',
    }
}

/// Appends the decimal notation of `n` to `out`.
pub fn push_dec_u64(n: u64, out: &mut Vec<char>)
    ensures
        final(out)@ == old(out)@ + spec_dec(n as int),
    decreases n,
{
    if n < 10 {
        out.push(digit_char(n));
        proof {
            assert(out@ =~= old(out)@ + spec_dec(n as int));
        }
    } else {
        push_dec_u64(n / 10, out);
        out.push(digit_char(n % 10));
        proof {
            assert(out@ =~= old(out)@ + spec_dec(n as int));
        }
    }
}

/// The decimal notation of `n` as a string.
pub fn dec_string_u64(n: u64) -> (r: String)
    ensures
        r@ == spec_dec(n as int),
{
    let mut out: Vec<char> = Vec::new();
    push_dec_u64(n, &mut out);
    string_from_chars(&out)
}

/// Mapping a function over a sequence commutes with appending one element.
pub proof fn lemma_map_values_push<A, B>(s: Seq<A>, f: spec_fn(A) -> B, x: A)
    ensures
        s.push(x).map_values(f) =~= s.map_values(f).push(f(x)),
{
}

/// `pat` occurs in `s` at position `j`.
pub open spec fn matches_at(s: Seq<char>, pat: Seq<char>, j: int) -> bool {
    0 <= j && j + pat.len() <= s.len() && s.subrange(j, j + pat.len()) == pat
}

/// Whether `pat` stands at position `i` of `s`.
pub fn match_at(s: &Vec<char>, pat: &Vec<char>, i: usize) -> (b: bool)
    requires
        i <= s@.len(),
    ensures
        b <==> matches_at(s@, pat@, i as int),
{
    let slen: usize = s.len();
    if pat.len() > slen - i {
        proof {
            assert(!matches_at(s@, pat@, i as int));
        }
        return false;
    }
    let mut k: usize = 0;
    while k < pat.len()
        invariant
            slen == s@.len(),
            i + pat@.len() <= slen,
            k <= pat@.len(),
            forall|m: int| 0 <= m < k ==> s@[i + m] == pat@[m],
        decreases pat@.len() - k,
    {
        if s[i + k] != pat[k] {
            proof {
                assert(s@.subrange(i as int, i + pat@.len())[k as int] == s@[i + k]);
                assert(!matches_at(s@, pat@, i as int));
            }
            return false;
        }
        k = k + 1;
    }
    proof {
        assert(s@.subrange(i as int, i + pat@.len()) =~= pat@);
    }
    true
}

/// The first position at or after `from` where `pat` occurs in `s`, if any.
pub fn find_from(s: &Vec<char>, pat: &Vec<char>, from: usize) -> (r: Option<usize>)
    requires
        from <= s@.len(),
    ensures
        match r {
            Some(j) => from <= j && matches_at(s@, pat@, j as int) && forall|m: int|
                from <= m < j ==> !matches_at(s@, pat@, m),
            None => forall|m: int| from <= m <= s@.len() ==> !matches_at(s@, pat@, m),
        },
{
    let mut i: usize = from;
    while i < s.len()
        invariant
            from <= i <= s@.len(),
            forall|m: int| from <= m < i ==> !matches_at(s@, pat@, m),
        decreases s@.len() - i,
    {
        if match_at(s, pat, i) {
            return Some(i);
        }
        i = i + 1;
    }
    if match_at(s, pat, s.len()) {
        // only an empty pattern can stand at the very end
        return Some(s.len());
    }
    None
}

/// The first position at or after `from` where `pat` occurs, as a spec
/// value.
pub open spec fn spec_find(s: Seq<char>, pat: Seq<char>, from: int) -> Option<int>
    decreases s.len() + 1 - from,
{
    if from < 0 {
        Option::None
    } else if from + pat.len() > s.len() {
        Option::None
    } else if matches_at(s, pat, from) {
        Option::Some(from)
    } else {
        spec_find(s, pat, from + 1)
    }
}

proof fn lemma_spec_find_hit(s: Seq<char>, pat: Seq<char>, from: int, j: int)
    requires
        0 <= from <= j,
        matches_at(s, pat, j),
        forall|m: int| from <= m < j ==> !(#[trigger] matches_at(s, pat, m)),
    ensures
        spec_find(s, pat, from) == Option::Some(j),
    decreases j - from,
{
    if from < j {
        lemma_spec_find_hit(s, pat, from + 1, j);
    }
}

proof fn lemma_spec_find_miss(s: Seq<char>, pat: Seq<char>, from: int)
    requires
        0 <= from,
        forall|m: int| from <= m <= s.len() ==> !(#[trigger] matches_at(s, pat, m)),
    ensures
        spec_find(s, pat, from) is None,
    decreases s.len() + 1 - from,
{
    if from + pat.len() <= s.len() {
        lemma_spec_find_miss(s, pat, from + 1);
    }
}

/// [`find_from`] computes exactly [`spec_find`].
pub fn find_at(s: &Vec<char>, pat: &Vec<char>, from: usize) -> (r: Option<usize>)
    requires
        from <= s@.len(),
    ensures
        match r {
            Option::Some(j) => spec_find(s@, pat@, from as int) == Option::Some(j as int) && from
                <= j && matches_at(s@, pat@, j as int),
            Option::None => spec_find(s@, pat@, from as int) is None,
        },
{
    let r = find_from(s, pat, from);
    proof {
        match r {
            Option::Some(j) => lemma_spec_find_hit(s@, pat@, from as int, j as int),
            Option::None => lemma_spec_find_miss(s@, pat@, from as int),
        }
    }
    r
}

/// Whether two character vectors hold the same text.
pub fn chars_eq(a: &Vec<char>, b: &Vec<char>) -> (r: bool)
    ensures
        r <==> a@ == b@,
{
    if a.len() != b.len() {
        return false;
    }
    let mut i: usize = 0;
    while i < a.len()
        invariant
            a@.len() == b@.len(),
            i <= a@.len(),
            forall|k: int| 0 <= k < i ==> a@[k] == b@[k],
        decreases a@.len() - i,
    {
        if a[i] != b[i] {
            return false;
        }
        i = i + 1;
    }
    proof {
        assert(a@ =~= b@);
    }
    true
}

/// Copies the characters of positions `a..b`.
pub fn subvec(v: &Vec<char>, a: usize, b: usize) -> (r: Vec<char>)
    requires
        a <= b <= v@.len(),
    ensures
        r@ == v@.subrange(a as int, b as int),
{
    let mut r: Vec<char> = Vec::new();
    let mut i: usize = a;
    while i < b
        invariant
            a <= i <= b <= v@.len(),
            r@ == v@.subrange(a as int, i as int),
        decreases b - i,
    {
        r.push(v[i]);
        proof {
            assert(r@ =~= v@.subrange(a as int, i + 1));
        }
        i = i + 1;
    }
    r
}

/// A Unicode whitespace character (the White_Space set that `str::trim`
/// and the usual whitespace classes go by).
pub open spec fn is_space(c: char) -> bool {
    ||| c as u32 == 32
    ||| 9 <= c as u32 <= 13
    ||| c as u32 == 0x85
    ||| c as u32 == 0xA0
    ||| c as u32 == 0x1680
    ||| 0x2000 <= c as u32 <= 0x200A
    ||| c as u32 == 0x2028
    ||| c as u32 == 0x2029
    ||| c as u32 == 0x202F
    ||| c as u32 == 0x205F
    ||| c as u32 == 0x3000
}

pub fn is_space_exec(c: char) -> (r: bool)
    ensures
        r == is_space(c),
{
    let u = c as u32;
    u == 32 || (9 <= u && u <= 13) || u == 0x85 || u == 0xA0 || u == 0x1680 || (0x2000 <= u && u
        <= 0x200A) || u == 0x2028 || u == 0x2029 || u == 0x202F || u == 0x205F || u == 0x3000
}

/// The first position at or after `from` that does not hold whitespace.
pub open spec fn spaces_end(s: Seq<char>, from: int) -> int
    decreases s.len() - from,
{
    if 0 <= from < s.len() && is_space(s[from]) {
        spaces_end(s, from + 1)
    } else {
        from
    }
}

pub fn spaces_end_exec(v: &Vec<char>, from: usize) -> (r: usize)
    requires
        from <= v@.len(),
    ensures
        r as int == spaces_end(v@, from as int),
        from <= r <= v@.len(),
{
    let mut r: usize = from;
    loop
        invariant_except_break
            from <= r <= v@.len(),
            spaces_end(v@, from as int) == spaces_end(v@, r as int),
        ensures
            from <= r <= v@.len(),
            r as int == spaces_end(v@, from as int),
        decreases v@.len() - r,
    {
        if r >= v.len() {
            break ;
        }
        if !is_space_exec(v[r]) {
            break ;
        }
        r = r + 1;
    }
    r
}

/// The position where the run of whitespace ending at `upto` begins.
pub open spec fn spaces_start(s: Seq<char>, upto: int) -> int
    decreases upto,
{
    if 0 < upto <= s.len() && is_space(s[upto - 1]) {
        spaces_start(s, upto - 1)
    } else {
        upto
    }
}

pub fn spaces_start_exec(v: &Vec<char>, upto: usize) -> (r: usize)
    requires
        upto <= v@.len(),
    ensures
        r as int == spaces_start(v@, upto as int),
        r <= upto,
{
    let mut r: usize = upto;
    loop
        invariant_except_break
            r <= upto <= v@.len(),
            spaces_start(v@, upto as int) == spaces_start(v@, r as int),
        ensures
            r <= upto,
            r as int == spaces_start(v@, upto as int),
        decreases r,
    {
        if r == 0 {
            break ;
        }
        if !is_space_exec(v[r - 1]) {
            break ;
        }
        r = r - 1;
    }
    r
}

/// The text with leading and trailing whitespace removed.
pub open spec fn spec_trim(s: Seq<char>) -> Seq<char> {
    let a = spaces_end(s, 0);
    let b = spaces_start(s, s.len() as int);
    if a >= b {
        Seq::<char>::empty()
    } else {
        s.subrange(a, b)
    }
}

/// Removes leading and trailing whitespace.
pub fn trim_chars(v: &Vec<char>) -> (r: Vec<char>)
    ensures
        r@ == spec_trim(v@),
{
    let a = spaces_end_exec(v, 0);
    let b = spaces_start_exec(v, v.len());
    if a >= b {
        let r: Vec<char> = Vec::new();
        proof {
            assert(r@ =~= spec_trim(v@));
        }
        r
    } else {
        subvec(v, a, b)
    }
}

/// `s` with every occurrence of `pat` replaced by `repl`, scanning left to
/// right without overlap.
pub open spec fn spec_replace(s: Seq<char>, pat: Seq<char>, repl: Seq<char>) -> Seq<char>
    recommends
        pat.len() > 0,
    decreases s.len(),
{
    if s.len() == 0 {
        Seq::<char>::empty()
    } else if pat.len() > 0 && matches_at(s, pat, 0) {
        repl + spec_replace(s.skip(pat.len() as int), pat, repl)
    } else {
        seq![s[0]] + spec_replace(s.skip(1), pat, repl)
    }
}

/// Replaces every occurrence of `pat` in `s` by `repl`.
pub fn replace_chars(s: &Vec<char>, pat: &Vec<char>, repl: &Vec<char>) -> (r: Vec<char>)
    requires
        pat@.len() > 0,
    ensures
        r@ == spec_replace(s@, pat@, repl@),
{
    let mut r: Vec<char> = Vec::new();
    let mut i: usize = 0;
    proof {
        assert(s@.skip(0) =~= s@);
        assert(r@ + spec_replace(s@, pat@, repl@) =~= spec_replace(s@, pat@, repl@));
    }
    while i < s.len()
        invariant
            pat@.len() > 0,
            i <= s@.len(),
            spec_replace(s@, pat@, repl@) == r@ + spec_replace(s@.skip(i as int), pat@, repl@),
        decreases s@.len() - i,
    {
        let ghost rest = s@.skip(i as int);
        if match_at(s, pat, i) {
            proof {
                assert(rest.subrange(0, pat@.len() as int) =~= s@.subrange(
                    i as int,
                    i + pat@.len(),
                ));
                assert(matches_at(rest, pat@, 0));
                assert(rest.skip(pat@.len() as int) =~= s@.skip(i + pat@.len()));
            }
            let mut k: usize = 0;
            let ghost r0 = r@;
            while k < repl.len()
                invariant
                    k <= repl@.len(),
                    r@ == r0 + repl@.subrange(0, k as int),
                decreases repl@.len() - k,
            {
                r.push(repl[k]);
                proof {
                    assert(r@ =~= r0 + repl@.subrange(0, k + 1));
                }
                k = k + 1;
            }
            proof {
                assert(repl@.subrange(0, repl@.len() as int) =~= repl@);
                assert(r0 + repl@ + spec_replace(s@.skip(i + pat@.len()), pat@, repl@) =~= r0
                    + spec_replace(rest, pat@, repl@));
            }
            i = i + pat.len();
        } else {
            proof {
                assert(rest.len() > 0);
                assert(rest[0] == s@[i as int]);
                if matches_at(rest, pat@, 0) {
                    assert(rest.subrange(0, pat@.len() as int) =~= s@.subrange(
                        i as int,
                        i + pat@.len(),
                    ));
                    assert(matches_at(s@, pat@, i as int));
                }
                assert(rest.skip(1) =~= s@.skip(i + 1));
            }
            let ghost r0 = r@;
            r.push(s[i]);
            proof {
                assert(r@ =~= r0 + seq![rest[0]]);
                assert(r0 + (seq![rest[0]] + spec_replace(rest.skip(1), pat@, repl@)) =~= r@
                    + spec_replace(s@.skip(i + 1), pat@, repl@));
            }
            i = i + 1;
        }
    }
    proof {
        assert(s@.skip(i as int) =~= Seq::<char>::empty());
        assert(spec_replace(Seq::<char>::empty(), pat@, repl@) == Seq::<char>::empty());
        assert(spec_replace(s@, pat@, repl@) =~= r@);
    }
    r
}

} // verus!
