use vstd::prelude::*;
use crate::text::{
    chars_eq, chars_of, find_at, match_at, matches_at, replace_chars, spaces_end, spaces_end_exec,
    spec_find, spec_replace, spec_trim, string_from_chars, subvec, trim_chars,
};

verus! {

/// A version file detected in the repository, with the version it
/// currently holds and the pattern its version line follows.
#[derive(Debug, Clone)]
pub struct VersionFile {
    pub path: String,
    pub current_version: String,
    pub pattern: String,
}

pub open spec fn is_digit(c: char) -> bool {
    48 <= c as u32 <= 57
}

/// A character a version number may contain after its numeric core:
/// letters, digits, dots and dashes (pre-release and build suffixes).
pub open spec fn is_version_char(c: char) -> bool {
    ||| is_digit(c)
    ||| 65 <= c as u32 <= 90
    ||| 97 <= c as u32 <= 122
    ||| c == '.'
    ||| c == '-'
}

/// The first position at or after `from` that does not hold a digit.
pub open spec fn digits_end(s: Seq<char>, from: int) -> int
    decreases s.len() - from,
{
    if 0 <= from < s.len() && is_digit(s[from]) {
        digits_end(s, from + 1)
    } else {
        from
    }
}

/// The first position at or after `from` that does not hold a version
/// character.
pub open spec fn version_chars_end(s: Seq<char>, from: int) -> int
    decreases s.len() - from,
{
    if 0 <= from < s.len() && is_version_char(s[from]) {
        version_chars_end(s, from + 1)
    } else {
        from
    }
}

/// Where the numeric core `digits '.' digits '.' digits` starting at
/// `from` ends, if the text holds one there.
pub open spec fn version_core_end(s: Seq<char>, from: int) -> Option<int> {
    let e1 = digits_end(s, from);
    if e1 > from && e1 < s.len() && s[e1] == '.' {
        let e2 = digits_end(s, e1 + 1);
        if e2 > e1 + 1 && e2 < s.len() && s[e2] == '.' {
            let e3 = digits_end(s, e2 + 1);
            if e3 > e2 + 1 {
                Option::Some(e3)
            } else {
                Option::None
            }
        } else {
            Option::None
        }
    } else {
        Option::None
    }
}

/// The text starts with a version number: `digits '.' digits '.' digits`.
pub open spec fn spec_valid_version(s: Seq<char>) -> bool {
    version_core_end(s, 0) is Some
}

fn digits_end_exec(v: &Vec<char>, from: usize) -> (r: usize)
    requires
        from <= v@.len(),
    ensures
        r as int == digits_end(v@, from as int),
        from <= r <= v@.len(),
{
    let mut r: usize = from;
    loop
        invariant_except_break
            from <= r <= v@.len(),
            digits_end(v@, from as int) == digits_end(v@, r as int),
        ensures
            from <= r <= v@.len(),
            r as int == digits_end(v@, from as int),
        decreases v@.len() - r,
    {
        if r >= v.len() {
            break ;
        }
        let u = v[r] as u32;
        if !(48 <= u && u <= 57) {
            break ;
        }
        r = r + 1;
    }
    r
}

fn version_chars_end_exec(v: &Vec<char>, from: usize) -> (r: usize)
    requires
        from <= v@.len(),
    ensures
        r as int == version_chars_end(v@, from as int),
        from <= r <= v@.len(),
{
    let mut r: usize = from;
    loop
        invariant_except_break
            from <= r <= v@.len(),
            version_chars_end(v@, from as int) == version_chars_end(v@, r as int),
        ensures
            from <= r <= v@.len(),
            r as int == version_chars_end(v@, from as int),
        decreases v@.len() - r,
    {
        if r >= v.len() {
            break ;
        }
        let u = v[r] as u32;
        let keep = (48 <= u && u <= 57) || (65 <= u && u <= 90) || (97 <= u && u <= 122) || v[r]
            == '.' || v[r] == '-';
        if !keep {
            break ;
        }
        r = r + 1;
    }
    r
}

fn version_core_end_exec(v: &Vec<char>, from: usize) -> (r: Option<usize>)
    requires
        from <= v@.len(),
    ensures
        match r {
            Option::Some(e) => version_core_end(v@, from as int) == Option::Some(e as int) && from
                < e <= v@.len(),
            Option::None => version_core_end(v@, from as int) is None,
        },
{
    let e1 = digits_end_exec(v, from);
    if e1 > from && e1 < v.len() && v[e1] == '.' {
        let e2 = digits_end_exec(v, e1 + 1);
        if e2 > e1 + 1 && e2 < v.len() && v[e2] == '.' {
            let e3 = digits_end_exec(v, e2 + 1);
            if e3 > e2 + 1 {
                Option::Some(e3)
            } else {
                Option::None
            }
        } else {
            Option::None
        }
    } else {
        Option::None
    }
}

/// Whether the input begins with a version number such as `0.1.6` or
/// `1.0.0-beta.1` (anything may follow the numeric core).
pub fn is_valid_version(input: &str) -> (r: bool)
    ensures
        r == spec_valid_version(input@),
{
    let v = chars_of(input);
    match version_core_end_exec(&v, 0) {
        Option::Some(_) => true,
        Option::None => false,
    }
}

/// The tag name a version produces under a tag format: every `{version}`
/// hole in the format replaced by the version.
pub fn generate_tag_name(version: &str, tag_format: &str) -> (r: String)
    ensures
        r@ == spec_replace(tag_format@, "{version}"@, version@),
{
    let hole = chars_of("{version}");
    proof {
        reveal_strlit("{version}");
    }
    let fmt = chars_of(tag_format);
    let ver = chars_of(version);
    let out = replace_chars(&fmt, &hole, &ver);
    string_from_chars(&out)
}

/// The first position at or after `from` holding a line break.
pub open spec fn line_break(s: Seq<char>, from: int) -> int
    decreases s.len() - from,
{
    if 0 <= from < s.len() && s[from] != '\n' {
        line_break(s, from + 1)
    } else {
        from
    }
}

fn line_break_exec(v: &Vec<char>, from: usize) -> (r: usize)
    requires
        from <= v@.len(),
    ensures
        r as int == line_break(v@, from as int),
        from <= r <= v@.len(),
{
    let mut r: usize = from;
    loop
        invariant_except_break
            from <= r <= v@.len(),
            line_break(v@, from as int) == line_break(v@, r as int),
        ensures
            from <= r <= v@.len(),
            r as int == line_break(v@, from as int),
        decreases v@.len() - r,
    {
        if r >= v.len() {
            break ;
        }
        if v[r] == '\n' {
            break ;
        }
        r = r + 1;
    }
    r
}

/// The lines of the text from position `p` on, split at `'\n'`, one
/// `'\r'` before the split stripped; a final line ending yields no empty
/// last line.
pub open spec fn spec_lines_from(s: Seq<char>, p: int) -> Seq<Seq<char>>
    decreases s.len() - p,
{
    if p < 0 || p >= s.len() {
        Seq::<Seq<char>>::empty()
    } else {
        let e = line_break(s, p);
        if p <= e && e < s.len() {
            let line = if e > p && s[e - 1] == '\r' {
                s.subrange(p, e - 1)
            } else {
                s.subrange(p, e)
            };
            seq![line] + spec_lines_from(s, e + 1)
        } else {
            seq![s.subrange(p, s.len() as int)]
        }
    }
}

pub open spec fn line_views(s: Seq<Vec<char>>) -> Seq<Seq<char>> {
    s.map_values(|l: Vec<char>| l@)
}

/// Splits text into its lines.
pub fn split_lines(v: &Vec<char>) -> (r: Vec<Vec<char>>)
    ensures
        line_views(r@) == spec_lines_from(v@, 0),
{
    let mut r: Vec<Vec<char>> = Vec::new();
    let mut p: usize = 0;
    proof {
        assert(line_views(r@) + spec_lines_from(v@, 0) =~= spec_lines_from(v@, 0));
    }
    while p < v.len()
        invariant
            p <= v@.len(),
            line_views(r@) + spec_lines_from(v@, p as int) == spec_lines_from(v@, 0),
        decreases v@.len() - p,
    {
        let e = line_break_exec(v, p);
        let ghost pre = line_views(r@);
        let ghost rest = spec_lines_from(v@, p as int);
        if e < v.len() {
            let line = if e > p && v[e - 1] == '\r' {
                subvec(v, p, e - 1)
            } else {
                subvec(v, p, e)
            };
            r.push(line);
            proof {
                assert(line_views(r@) =~= pre.push(rest[0]));
                assert(pre.push(rest[0]) + spec_lines_from(v@, e + 1) =~= pre + rest);
            }
            p = e + 1;
        } else {
            let line = subvec(v, p, v.len());
            r.push(line);
            proof {
                assert(line_views(r@) =~= pre.push(rest[0]));
                assert(pre.push(rest[0]) + Seq::<Seq<char>>::empty() =~= pre + rest);
                assert(spec_lines_from(v@, v@.len() as int) =~= Seq::<Seq<char>>::empty());
            }
            p = v.len();
        }
    }
    proof {
        assert(spec_lines_from(v@, p as int) =~= Seq::<Seq<char>>::empty());
        assert(line_views(r@) =~= line_views(r@) + spec_lines_from(v@, p as int));
    }
    r
}

/// The first position at or after `from` holding a double quote.
pub open spec fn quote_end(s: Seq<char>, from: int) -> int
    decreases s.len() - from,
{
    if 0 <= from < s.len() && s[from] != '"' {
        quote_end(s, from + 1)
    } else {
        from
    }
}

fn quote_end_exec(v: &Vec<char>, from: usize) -> (r: usize)
    requires
        from <= v@.len(),
    ensures
        r as int == quote_end(v@, from as int),
        from <= r <= v@.len(),
{
    let mut r: usize = from;
    loop
        invariant_except_break
            from <= r <= v@.len(),
            quote_end(v@, from as int) == quote_end(v@, r as int),
        ensures
            from <= r <= v@.len(),
            r as int == quote_end(v@, from as int),
        decreases v@.len() - r,
    {
        if r >= v.len() {
            break ;
        }
        if v[r] == '"' {
            break ;
        }
        r = r + 1;
    }
    r
}

/// What a line of the form `\s* version \s* = \s* " ... "` captures: the
/// non-empty text between the quotes, if the line has that shape.
pub open spec fn toml_line_capture(line: Seq<char>) -> Option<Seq<char>> {
    let a = spaces_end(line, 0);
    if matches_at(line, "version"@, a) {
        let b = spaces_end(line, a + 7);
        if b < line.len() && line[b] == '=' {
            let c = spaces_end(line, b + 1);
            if c < line.len() && line[c] == '"' {
                let d = quote_end(line, c + 1);
                if d > c + 1 && d < line.len() {
                    Option::Some(line.subrange(c + 1, d))
                } else {
                    Option::None
                }
            } else {
                Option::None
            }
        } else {
            Option::None
        }
    } else {
        Option::None
    }
}

fn toml_line_capture_exec(line: &Vec<char>) -> (r: Option<Vec<char>>)
    ensures
        match r {
            Option::Some(c) => toml_line_capture(line@) == Option::Some(c@),
            Option::None => toml_line_capture(line@) is None,
        },
{
    let key = chars_of("version");
    proof {
        reveal_strlit("version");
    }
    let n = line.len();
    let a = spaces_end_exec(line, 0);
    if !match_at(line, &key, a) {
        return Option::None;
    }
    proof {
        assert(a + 7 <= n);
    }
    let b = spaces_end_exec(line, a + 7);
    if !(b < line.len() && line[b] == '=') {
        return Option::None;
    }
    let c = spaces_end_exec(line, b + 1);
    if !(c < line.len() && line[c] == '"') {
        return Option::None;
    }
    let d = quote_end_exec(line, c + 1);
    if d > c + 1 && d < line.len() {
        Option::Some(subvec(line, c + 1, d))
    } else {
        Option::None
    }
}

/// The capture of the first line that has the version shape.
pub open spec fn toml_scan(lines: Seq<Seq<char>>) -> Option<Seq<char>>
    decreases lines.len(),
{
    if lines.len() == 0 {
        Option::None
    } else {
        match toml_line_capture(lines.first()) {
            Option::Some(c) => Option::Some(c),
            Option::None => toml_scan(lines.drop_first()),
        }
    }
}

/// The version a TOML manifest declares: the quoted value of the first
/// `version = "..."` line.
pub open spec fn spec_toml_version(content: Seq<char>) -> Option<Seq<char>> {
    toml_scan(spec_lines_from(content, 0))
}

/// Extracts the version from TOML manifest text.
pub fn extract_toml_version(content: &str) -> (r: Option<String>)
    ensures
        match r {
            Option::Some(s) => spec_toml_version(content@) == Option::Some(s@),
            Option::None => spec_toml_version(content@) is None,
        },
{
    let v = chars_of(content);
    let lines = split_lines(&v);
    let ghost lv = line_views(lines@);
    let mut i: usize = 0;
    proof {
        assert(lv.skip(0) =~= lv);
    }
    while i < lines.len()
        invariant
            i <= lines@.len(),
            v@ == content@,
            lv == line_views(lines@),
            line_views(lines@) == spec_lines_from(v@, 0),
            toml_scan(lv) == toml_scan(lv.skip(i as int)),
        decreases lines@.len() - i,
    {
        proof {
            assert(lv.skip(i as int).first() == lv[i as int]);
            assert(lv.skip(i as int).drop_first() =~= lv.skip(i + 1));
        }
        match toml_line_capture_exec(&lines[i]) {
            Option::Some(c) => {
                proof {
                    assert(lv[i as int] == lines@[i as int]@);
                    assert(toml_scan(lv.skip(i as int)) == Option::Some(c@));
                }
                return Option::Some(string_from_chars(&c));
            },
            Option::None => {
                proof {
                    assert(lv[i as int] == lines@[i as int]@);
                    assert(toml_scan(lv.skip(i as int)) == toml_scan(lv.skip(i + 1)));
                }
            },
        }
        i = i + 1;
    }
    proof {
        assert(lv.skip(i as int) =~= Seq::<Seq<char>>::empty());
    }
    Option::None
}

/// What the text captures at position `i` under the JSON shape
/// `"version" \s* : \s* " ... "`.
pub open spec fn pkg_capture_at(s: Seq<char>, i: int) -> Option<Seq<char>> {
    if matches_at(s, "\"version\""@, i) {
        let b = spaces_end(s, i + 9);
        if b < s.len() && s[b] == ':' {
            let c = spaces_end(s, b + 1);
            if c < s.len() && s[c] == '"' {
                let d = quote_end(s, c + 1);
                if d > c + 1 && d < s.len() {
                    Option::Some(s.subrange(c + 1, d))
                } else {
                    Option::None
                }
            } else {
                Option::None
            }
        } else {
            Option::None
        }
    } else {
        Option::None
    }
}

/// The leftmost position's capture under the JSON shape.
pub open spec fn pkg_scan(s: Seq<char>, i: int) -> Option<Seq<char>>
    decreases s.len() + 1 - i,
{
    if i < 0 || i > s.len() {
        Option::None
    } else if pkg_capture_at(s, i) is Some {
        pkg_capture_at(s, i)
    } else if i == s.len() {
        Option::None
    } else {
        pkg_scan(s, i + 1)
    }
}

pub open spec fn spec_package_json_version(content: Seq<char>) -> Option<Seq<char>> {
    pkg_scan(content, 0)
}

fn pkg_capture_at_exec(v: &Vec<char>, i: usize, key: &Vec<char>) -> (r: Option<Vec<char>>)
    requires
        i <= v@.len(),
        key@ == "\"version\""@,
        key@.len() == 9,
    ensures
        match r {
            Option::Some(c) => pkg_capture_at(v@, i as int) == Option::Some(c@),
            Option::None => pkg_capture_at(v@, i as int) is None,
        },
{
    let n = v.len();
    if !match_at(v, key, i) {
        return Option::None;
    }
    proof {
        assert(i + 9 <= n);
    }
    let b = spaces_end_exec(v, i + 9);
    if !(b < v.len() && v[b] == ':') {
        return Option::None;
    }
    let c = spaces_end_exec(v, b + 1);
    if !(c < v.len() && v[c] == '"') {
        return Option::None;
    }
    let d = quote_end_exec(v, c + 1);
    if d > c + 1 && d < v.len() {
        Option::Some(subvec(v, c + 1, d))
    } else {
        Option::None
    }
}

/// Extracts the version from package manifest JSON text: the value of the
/// leftmost `"version": "..."` pair.
pub fn extract_package_json_version(content: &str) -> (r: Option<String>)
    ensures
        match r {
            Option::Some(s) => spec_package_json_version(content@) == Option::Some(s@),
            Option::None => spec_package_json_version(content@) is None,
        },
{
    let v = chars_of(content);
    let key = chars_of("\"version\"");
    proof {
        reveal_strlit("\"version\"");
    }
    let mut i: usize = 0;
    while i < v.len()
        invariant
            i <= v@.len(),
            v@ == content@,
            key@ == "\"version\""@,
            key@.len() == 9,
            pkg_scan(v@, 0) == pkg_scan(v@, i as int),
        decreases v@.len() - i,
    {
        match pkg_capture_at_exec(&v, i, &key) {
            Option::Some(c) => {
                proof {
                    assert(pkg_scan(v@, i as int) == Option::Some(c@));
                }
                return Option::Some(string_from_chars(&c));
            },
            Option::None => {
                proof {
                    assert(pkg_scan(v@, i as int) == pkg_scan(v@, i + 1));
                }
            },
        }
        i = i + 1;
    }
    proof {
        if pkg_capture_at(v@, i as int) is Some {
            assert(matches_at(v@, "\"version\""@, i as int));
            assert(false);
        }
    }
    Option::None
}

/// The version a plain version file holds: the whole trimmed content, if
/// it begins with a version number.
pub open spec fn spec_plain_version(content: Seq<char>) -> Option<Seq<char>> {
    if spec_valid_version(spec_trim(content)) {
        Option::Some(spec_trim(content))
    } else {
        Option::None
    }
}

/// Extracts the version from a plain version file.
pub fn extract_plain_version(content: &str) -> (r: Option<String>)
    ensures
        match r {
            Option::Some(s) => spec_plain_version(content@) == Option::Some(s@),
            Option::None => spec_plain_version(content@) is None,
        },
{
    let v = chars_of(content);
    let t = trim_chars(&v);
    match version_core_end_exec(&t, 0) {
        Option::Some(_) => Option::Some(string_from_chars(&t)),
        Option::None => Option::None,
    }
}

/// Which extractor a well-known file name selects.
pub open spec fn spec_extract_version(content: Seq<char>, filename: Seq<char>) -> Option<
    Seq<char>,
> {
    if filename == "Cargo.toml"@ || filename == "pyproject.toml"@ {
        spec_toml_version(content)
    } else if filename == "package.json"@ {
        spec_package_json_version(content)
    } else if filename == "VERSION"@ {
        spec_plain_version(content)
    } else {
        Option::None
    }
}

/// Extracts the current version from a well-known version file.
pub fn extract_version(content: &str, filename: &str) -> (r: Option<String>)
    ensures
        match r {
            Option::Some(s) => spec_extract_version(content@, filename@) == Option::Some(s@),
            Option::None => spec_extract_version(content@, filename@) is None,
        },
{
    let f = chars_of(filename);
    if chars_eq(&f, &chars_of("Cargo.toml")) || chars_eq(&f, &chars_of("pyproject.toml")) {
        extract_toml_version(content)
    } else if chars_eq(&f, &chars_of("package.json")) {
        extract_package_json_version(content)
    } else if chars_eq(&f, &chars_of("VERSION")) {
        extract_plain_version(content)
    } else {
        Option::None
    }
}

/// Greedy suffix placement: the largest position in `m..=k` where the
/// literal tail of a pattern matches, after a version's trailing
/// characters have been consumed as far as possible.
pub open spec fn best_suffix_start(s: Seq<char>, suffix: Seq<char>, m: int, k: int) -> Option<int>
    decreases k + 1 - m,
{
    if k < m {
        Option::None
    } else if matches_at(s, suffix, k) {
        Option::Some(k)
    } else {
        best_suffix_start(s, suffix, m, k - 1)
    }
}

/// Where a one-hole pattern matches at position `i`: the bounds of the
/// version it captures, if literal prefix, version number and literal
/// suffix all match there.
pub open spec fn hole_match_at(
    s: Seq<char>,
    prefix: Seq<char>,
    suffix: Seq<char>,
    i: int,
) -> Option<(int, int)> {
    if matches_at(s, prefix, i) {
        match version_core_end(s, i + prefix.len()) {
            Option::Some(m) => match best_suffix_start(s, suffix, m, version_chars_end(s, m)) {
                Option::Some(k) => Option::Some(((i + prefix.len()) as int, k)),
                Option::None => Option::None,
            },
            Option::None => Option::None,
        }
    } else {
        Option::None
    }
}

/// The leftmost match of a one-hole pattern: its start and the capture
/// bounds.
pub open spec fn first_hole_match(
    s: Seq<char>,
    prefix: Seq<char>,
    suffix: Seq<char>,
    i: int,
) -> Option<(int, int, int)>
    decreases s.len() + 1 - i,
{
    if i < 0 || i > s.len() {
        Option::None
    } else {
        match hole_match_at(s, prefix, suffix, i) {
            Option::Some((vs, ve)) => Option::Some((i, vs, ve)),
            Option::None => if i == s.len() {
                Option::None
            } else {
                first_hole_match(s, prefix, suffix, i + 1)
            },
        }
    }
}

fn best_suffix_start_exec(v: &Vec<char>, suffix: &Vec<char>, m: usize, k: usize) -> (r: Option<
    usize,
>)
    requires
        k <= v@.len(),
    ensures
        match r {
            Option::Some(j) => best_suffix_start(v@, suffix@, m as int, k as int) == Option::Some(
                j as int,
            ) && m <= j <= k && matches_at(v@, suffix@, j as int),
            Option::None => best_suffix_start(v@, suffix@, m as int, k as int) is None,
        },
{
    if k < m {
        return Option::None;
    }
    let mut j: usize = k;
    loop
        invariant
            m <= j <= k <= v@.len(),
            best_suffix_start(v@, suffix@, m as int, k as int) == best_suffix_start(
                v@,
                suffix@,
                m as int,
                j as int,
            ),
        decreases j,
    {
        if match_at(v, suffix, j) {
            return Option::Some(j);
        }
        if j == m {
            return Option::None;
        }
        j = j - 1;
    }
}

fn hole_match_at_exec(v: &Vec<char>, prefix: &Vec<char>, suffix: &Vec<char>, i: usize) -> (r:
    Option<(usize, usize)>)
    requires
        i <= v@.len(),
    ensures
        match r {
            Option::Some(b) => hole_match_at(v@, prefix@, suffix@, i as int) == Option::Some(
                (b.0 as int, b.1 as int),
            ) && i <= b.0 <= b.1 <= v@.len() && matches_at(v@, suffix@, b.1 as int),
            Option::None => hole_match_at(v@, prefix@, suffix@, i as int) is None,
        },
{
    let n = v.len();
    if !match_at(v, prefix, i) {
        return Option::None;
    }
    proof {
        assert(i + prefix@.len() <= n);
    }
    let vstart = i + prefix.len();
    match version_core_end_exec(v, vstart) {
        Option::Some(m) => {
            let ce = version_chars_end_exec(v, m);
            match best_suffix_start_exec(v, suffix, m, ce) {
                Option::Some(k) => Option::Some((vstart, k)),
                Option::None => Option::None,
            }
        },
        Option::None => Option::None,
    }
}

fn first_hole_match_exec(v: &Vec<char>, prefix: &Vec<char>, suffix: &Vec<char>) -> (r: Option<
    (usize, usize, usize),
>)
    ensures
        match r {
            Option::Some(b) => first_hole_match(v@, prefix@, suffix@, 0) == Option::Some(
                (b.0 as int, b.1 as int, b.2 as int),
            ) && b.0 <= b.1 <= b.2 <= v@.len() && b.2 + suffix@.len() <= v@.len(),
            Option::None => first_hole_match(v@, prefix@, suffix@, 0) is None,
        },
{
    let mut i: usize = 0;
    while i < v.len()
        invariant
            i <= v@.len(),
            first_hole_match(v@, prefix@, suffix@, 0) == first_hole_match(
                v@,
                prefix@,
                suffix@,
                i as int,
            ),
        decreases v@.len() - i,
    {
        match hole_match_at_exec(v, prefix, suffix, i) {
            Option::Some(b) => {
                return Option::Some((i, b.0, b.1));
            },
            Option::None => {},
        }
        i = i + 1;
    }
    match hole_match_at_exec(v, prefix, suffix, i) {
        Option::Some(b) => Option::Some((i, b.0, b.1)),
        Option::None => Option::None,
    }
}

/// `content` with the first match of `pattern` — its `{version}` hole
/// matching a version number, the text around it matching literally —
/// replaced by the pattern with every hole filled with `new_version`;
/// unchanged when the pattern has no hole or never matches.
pub open spec fn spec_update_content(
    content: Seq<char>,
    pattern: Seq<char>,
    new_version: Seq<char>,
) -> Seq<char> {
    match spec_find(pattern, "{version}"@, 0) {
        Option::None => content,
        Option::Some(h) => {
            let prefix = pattern.take(h);
            let suffix = pattern.skip(h + 9);
            match first_hole_match(content, prefix, suffix, 0) {
                Option::None => content,
                Option::Some((st, vs, ve)) => content.take(st) + spec_replace(
                    pattern,
                    "{version}"@,
                    new_version,
                ) + content.skip(ve + suffix.len()),
            }
        },
    }
}

/// Rewrites the version a file's content declares under its pattern.
pub fn update_version_content(content: &str, pattern: &str, new_version: &str) -> (r: String)
    ensures
        r@ == spec_update_content(content@, pattern@, new_version@),
{
    let hole = chars_of("{version}");
    proof {
        reveal_strlit("{version}");
    }
    let c = chars_of(content);
    let p = chars_of(pattern);
    let nv = chars_of(new_version);
    match find_at(&p, &hole, 0) {
        Option::None => string_from_chars(&c),
        Option::Some(h) => {
            let plen = p.len();
            proof {
                assert(h + 9 <= plen);
            }
            let prefix = subvec(&p, 0, h);
            let suffix = subvec(&p, h + 9, plen);
            proof {
                assert(prefix@ =~= p@.take(h as int));
                assert(suffix@ =~= p@.skip(h + 9));
            }
            match first_hole_match_exec(&c, &prefix, &suffix) {
                Option::None => string_from_chars(&c),
                Option::Some(b) => {
                    let newtext = replace_chars(&p, &hole, &nv);
                    let mut out = subvec(&c, 0, b.0);
                    let mut mid = newtext;
                    out.append(&mut mid);
                    let mut tail = subvec(&c, b.2 + suffix.len(), c.len());
                    out.append(&mut tail);
                    proof {
                        assert(out@ =~= spec_update_content(content@, pattern@, new_version@));
                    }
                    string_from_chars(&out)
                },
            }
        },
    }
}

/// The version the first match of a one-hole pattern captures in the
/// content, if the pattern has a hole and matches.
pub open spec fn spec_extract_with_pattern(content: Seq<char>, pattern: Seq<char>) -> Option<
    Seq<char>,
> {
    match spec_find(pattern, "{version}"@, 0) {
        Option::None => Option::None,
        Option::Some(h) => {
            match first_hole_match(content, pattern.take(h), pattern.skip(h + 9), 0) {
                Option::None => Option::None,
                Option::Some((st, vs, ve)) => Option::Some(content.subrange(vs, ve)),
            }
        },
    }
}

/// Extracts the version a one-hole pattern captures in the content.
pub fn extract_with_pattern(content: &str, pattern: &str) -> (r: Option<String>)
    ensures
        match r {
            Option::Some(s) => spec_extract_with_pattern(content@, pattern@) == Option::Some(s@),
            Option::None => spec_extract_with_pattern(content@, pattern@) is None,
        },
{
    let hole = chars_of("{version}");
    proof {
        reveal_strlit("{version}");
    }
    let c = chars_of(content);
    let p = chars_of(pattern);
    match find_at(&p, &hole, 0) {
        Option::None => Option::None,
        Option::Some(h) => {
            let plen = p.len();
            proof {
                assert(h + 9 <= plen);
            }
            let prefix = subvec(&p, 0, h);
            let suffix = subvec(&p, h + 9, plen);
            proof {
                assert(prefix@ =~= p@.take(h as int));
                assert(suffix@ =~= p@.skip(h + 9));
            }
            match first_hole_match_exec(&c, &prefix, &suffix) {
                Option::None => Option::None,
                Option::Some(b) => {
                    let cap = subvec(&c, b.1, b.2);
                    Option::Some(string_from_chars(&cap))
                },
            }
        },
    }
}

} // verus!
