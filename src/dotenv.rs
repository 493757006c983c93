//! Reading `KEY=value` settings: one pair per line, `#` comments and blank
//! lines skipped, the value unquoted.

use vstd::prelude::*;

verus! {

/// Characters with the Unicode `White_Space` property.
pub open spec fn is_white_space(c: char) -> bool {
    let u = c as u32;
    (0x9 <= u && u <= 0xd) || u == 0x20 || u == 0x85 || u == 0xa0 || u == 0x1680 || (0x2000 <= u
        && u <= 0x200a) || u == 0x2028 || u == 0x2029 || u == 0x202f || u == 0x205f || u == 0x3000
}

/// `s` without its leading white space.
pub open spec fn trim_start_spec(s: Seq<char>) -> Seq<char>
    decreases s.len(),
{
    if s.len() > 0 && is_white_space(s[0]) {
        trim_start_spec(s.drop_first())
    } else {
        s
    }
}

/// `s` without its trailing white space.
pub open spec fn trim_end_spec(s: Seq<char>) -> Seq<char>
    decreases s.len(),
{
    if s.len() > 0 && is_white_space(s.last()) {
        trim_end_spec(s.drop_last())
    } else {
        s
    }
}

/// `s` without white space at either end.
pub open spec fn trim_spec(s: Seq<char>) -> Seq<char> {
    trim_end_spec(trim_start_spec(s))
}

/// `c` is one of the three quote characters.
pub open spec fn is_quote(c: char) -> bool {
    c == '"' || c == '\'' || c == '`'
}

/// `s` without a pair of equal quotes around it.
pub open spec fn remove_quotes_spec(s: Seq<char>) -> Seq<char> {
    if s.len() >= 2 && is_quote(s[0]) && s.last() == s[0] {
        s.subrange(1, s.len() - 1)
    } else {
        s
    }
}

/// The position of the first `=` in `s`, if there is one.
pub open spec fn first_equals(s: Seq<char>, p: int) -> bool {
    0 <= p < s.len() && s[p] == '=' && forall|j: int| 0 <= j < p ==> s[j] != '='
}

/// The key and the value of a line: the text before the first `=` without
/// trailing white space, and the text after it without leading white space
/// and unquoted; none where the line has no `=`.
pub open spec fn parse_line_spec(s: Seq<char>) -> Option<(Seq<char>, Seq<char>)> {
    if exists|p: int| first_equals(s, p) {
        let p = choose|p: int| first_equals(s, p);
        Some(
            (
                trim_end_spec(s.subrange(0, p)),
                remove_quotes_spec(trim_start_spec(s.subrange(p + 1, s.len() as int))),
            ),
        )
    } else {
        None
    }
}

/// A line that holds no setting: blank, or a `#` comment.
pub open spec fn is_skipped(line: Seq<char>) -> bool {
    trim_spec(line).len() == 0 || trim_spec(line)[0] == '#'
}

/// The settings of `lines`, in order; or the number, counted from 1, of the
/// first line that is neither skipped nor a setting.
pub open spec fn parse_spec(lines: Seq<Seq<char>>) -> Result<Seq<(Seq<char>, Seq<char>)>, nat>
    decreases lines.len(),
{
    if lines.len() == 0 {
        Ok(Seq::empty())
    } else {
        match parse_spec(lines.drop_last()) {
            Err(n) => Err(n),
            Ok(kvs) => if is_skipped(lines.last()) {
                Ok(kvs)
            } else {
                match parse_line_spec(trim_spec(lines.last())) {
                    None => Err(lines.len()),
                    Some(kv) => Ok(kvs.push(kv)),
                }
            },
        }
    }
}

/// Once a line fails, the lines after it change nothing.
proof fn lemma_parse_error_stays(lines: Seq<Seq<char>>, k: int)
    requires
        0 <= k <= lines.len(),
        parse_spec(lines.subrange(0, k)) is Err,
    ensures
        parse_spec(lines) == parse_spec(lines.subrange(0, k)),
    decreases lines.len(),
{
    if k == lines.len() {
        assert(lines.subrange(0, k) =~= lines);
    } else {
        assert(lines.drop_last().subrange(0, k) =~= lines.subrange(0, k));
        lemma_parse_error_stays(lines.drop_last(), k);
    }
}

/// Why settings could not be read.
#[derive(Debug, PartialEq, Eq)]
pub enum DotenvError {
    /// The line (given) has no `=`.
    NoValue(String),
    /// The line at this number, counted from 1, is not a setting.
    BadLine(usize, String),
}

/// Whether `c` has the Unicode `White_Space` property.
pub fn is_white_space_char(c: char) -> (r: bool)
    ensures
        r == is_white_space(c),
{
    let u = c as u32;
    (0x9 <= u && u <= 0xd) || u == 0x20 || u == 0x85 || u == 0xa0 || u == 0x1680 || (0x2000 <= u
        && u <= 0x200a) || u == 0x2028 || u == 0x2029 || u == 0x202f || u == 0x205f || u == 0x3000
}

/// `s` without its leading white space.
pub fn trim_start(s: &str) -> (r: &str)
    ensures
        r@ == trim_start_spec(s@),
{
    let n = s.unicode_len();
    let mut i: usize = 0;
    assert(s@.subrange(0, n as int) =~= s@);
    while i < n && is_white_space_char(s.get_char(i))
        invariant
            n == s@.len(),
            i <= n,
            trim_start_spec(s@) == trim_start_spec(s@.subrange(i as int, n as int)),
        decreases n - i,
    {
        assert(s@.subrange(i as int, n as int).drop_first() =~= s@.subrange(i + 1, n as int));
        i = i + 1;
    }
    s.substring_char(i, n)
}

/// `s` without its trailing white space.
pub fn trim_end(s: &str) -> (r: &str)
    ensures
        r@ == trim_end_spec(s@),
{
    let n = s.unicode_len();
    let mut i: usize = n;
    assert(s@.subrange(0, n as int) =~= s@);
    while i > 0 && is_white_space_char(s.get_char(i - 1))
        invariant
            n == s@.len(),
            i <= n,
            trim_end_spec(s@) == trim_end_spec(s@.subrange(0, i as int)),
        decreases i,
    {
        assert(s@.subrange(0, i as int).drop_last() =~= s@.subrange(0, i - 1));
        i = i - 1;
    }
    s.substring_char(0, i)
}

/// `s` without white space at either end.
pub fn trim(s: &str) -> (r: &str)
    ensures
        r@ == trim_spec(s@),
{
    trim_end(trim_start(s))
}

/// `s` without a pair of equal quotes (`"`, `'` or `` ` ``) around it.
pub fn remove_quotes(s: &str) -> (r: &str)
    ensures
        r@ == remove_quotes_spec(s@),
{
    let n = s.unicode_len();
    if n >= 2 {
        let first = s.get_char(0);
        let last = s.get_char(n - 1);
        if (first == '"' || first == '\'' || first == '`') && last == first {
            return s.substring_char(1, n - 1);
        }
    }
    s
}

/// The key and the value of a `KEY=value` line: the key loses its trailing
/// white space, the value its leading white space and a pair of quotes.
pub fn parse_line(s: &str) -> (r: Result<(&str, &str), DotenvError>)
    ensures
        r is Ok <==> parse_line_spec(s@) is Some,
        r is Ok ==> (r->Ok_0.0@, r->Ok_0.1@) == parse_line_spec(s@)->0,
        r is Err ==> r == Err::<(&str, &str), DotenvError>(DotenvError::NoValue(r->Err_0->NoValue_0))
            && r->Err_0->NoValue_0@ == s@,
{
    let n = s.unicode_len();
    let mut p: usize = 0;
    while p < n && s.get_char(p) != '='
        invariant
            n == s@.len(),
            p <= n,
            forall|j: int| 0 <= j < p ==> s@[j] != '=',
        decreases n - p,
    {
        p = p + 1;
    }
    if p == n {
        assert forall|q: int| !first_equals(s@, q) by {}
        return Err(DotenvError::NoValue(String::from_str(s)));
    }
    assert(first_equals(s@, p as int));
    assert forall|q: int| first_equals(s@, q) implies q == p by {
        if q < p {
        } else if q > p {
            assert(s@[p as int] == '=');
        }
    }
    let key = trim_end(s.substring_char(0, p));
    let value = remove_quotes(trim_start(s.substring_char(p + 1, n)));
    Ok((key, value))
}

/// The settings of `lines`, in order: blank lines and `#` comments are
/// skipped; any other line must be a `KEY=value` setting.
pub fn parse(lines: &[String]) -> (r: Result<Vec<(String, String)>, DotenvError>)
    ensures
        parse_spec(lines@.map_values(|l: String| l@)) is Ok <==> r is Ok,
        r is Ok ==> r->Ok_0@.map_values(|kv: (String, String)| (kv.0@, kv.1@)) == parse_spec(
            lines@.map_values(|l: String| l@),
        )->Ok_0,
        r is Err ==> (r matches Err(DotenvError::BadLine(n, _)) && parse_spec(
            lines@.map_values(|l: String| l@),
        ) == Err::<Seq<(Seq<char>, Seq<char>)>, nat>(n as nat)),
{
    let ghost views = lines@.map_values(|l: String| l@);
    let mut list: Vec<(String, String)> = Vec::new();
    let mut col: usize = 0;
    while col < lines.len()
        invariant
            col <= lines@.len(),
            views == lines@.map_values(|l: String| l@),
            parse_spec(views.subrange(0, col as int)) is Ok,
            list@.map_values(|kv: (String, String)| (kv.0@, kv.1@)) == parse_spec(
                views.subrange(0, col as int),
            )->Ok_0,
        decreases lines@.len() - col,
    {
        let ghost prefix = views.subrange(0, col + 1);
        assert(prefix.drop_last() =~= views.subrange(0, col as int));
        assert(prefix.last() == lines@[col as int]@);
        let line = trim(lines[col].as_str());
        let skipped = line.unicode_len() == 0 || line.get_char(0) == '#';
        if !skipped {
            match parse_line(line) {
                Ok(kv) => {
                    let ghost before = list@.map_values(|kv: (String, String)| (kv.0@, kv.1@));
                    list.push((kv.0.to_owned(), kv.1.to_owned()));
                    assert(list@.map_values(|kv: (String, String)| (kv.0@, kv.1@)) =~= before.push(
                        (kv.0@, kv.1@),
                    ));
                },
                Err(_) => {
                    proof {
                        assert(parse_spec(prefix) == Err::<Seq<(Seq<char>, Seq<char>)>, nat>(
                            (col + 1) as nat,
                        ));
                        lemma_parse_error_stays(views, col + 1);
                    }
                    return Err(DotenvError::BadLine(col + 1, lines[col].clone()));
                },
            }
        }
        col = col + 1;
    }
    assert(views.subrange(0, lines@.len() as int) =~= views);
    Ok(list)
}

} // verus!
