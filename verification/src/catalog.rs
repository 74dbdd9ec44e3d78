//! Helpers of the catalog: telling a version apart from the rest of a file stem.

use vstd::prelude::*;

use crate::text::{range_string, to_chars};
use vstd::string::StringExecFns;

verus! {

/// Names what `regex::Regex::find` gives when `pattern` compiles: the text
/// of `haystack` before the leftmost-first match, the match, and the text
/// after it; `None` if there is no match or `pattern` does not compile.
pub uninterp spec fn regex_find_of(pattern: Seq<char>, haystack: Seq<char>) -> Option<(Seq<char>, Seq<char>, Seq<char>)>;

/// Compiles `pattern` with `regex::Regex::new` and runs `find` on
/// `haystack`, splitting `haystack` around the match. Claimed: the parts are
/// what `regex_find_of` names, and they make up `haystack` in order, since a
/// match is a span of the text searched. A pattern that does not compile
/// gives `None`.
#[verifier::external_body]
fn regex_find(pattern: &str, haystack: &str) -> (r: Option<(String, String, String)>)
    ensures
        r is None <==> regex_find_of(pattern@, haystack@) is None,
        r matches Some((a, m, z)) ==> regex_find_of(pattern@, haystack@) == Some((a@, m@, z@)) && haystack@ == a@
            + m@ + z@,
{
    match regex::Regex::new(pattern) {
        Ok(re) => match re.find(haystack) {
            Some(m) => Some((
                haystack[..m.start()].to_string(),
                m.as_str().to_string(),
                haystack[m.end()..].to_string(),
            )),
            None => None,
        },
        Err(_) => None,
    }
}

/// The version pattern: a run of digits led by `V`, `R`, whitespace, `-`,
/// `_` or `.`, then separated digit runs and trailing letters, at the end of
/// the text (in the `regex` crate's syntax, whitespace ignored).
pub open spec fn version_pattern() -> Seq<char> {
    VERSION_PATTERN@
}

pub const VERSION_PATTERN: &'static str = r"(?x)
    (?:[VR]|[\s\-_][VvRr]|[\s\-_\.])\d{1,}
    (?:[\._\-]\d{1,})*
    (?:[\._\-]\d{1,})*
    [A-Za-z]*[\._\-]*
    [A-Za-z0-9]*
    $";

/// Whether `c` is trimmed from around a version: space, `_` or `-`.
pub open spec fn is_version_pad(c: char) -> bool {
    c == ' ' || c == '_' || c == '-'
}

/// `s` without leading padding characters.
pub open spec fn trim_pad_start(s: Seq<char>) -> Seq<char>
    decreases s.len(),
{
    if s.len() > 0 && is_version_pad(s[0]) {
        trim_pad_start(s.drop_first())
    } else {
        s
    }
}

/// `s` without trailing padding characters.
pub open spec fn trim_pad_end(s: Seq<char>) -> Seq<char>
    decreases s.len(),
{
    if s.len() > 0 && is_version_pad(s.last()) {
        trim_pad_end(s.drop_last())
    } else {
        s
    }
}

fn pad(c: char) -> (r: bool)
    ensures
        r == is_version_pad(c),
{
    c == ' ' || c == '_' || c == '-'
}

/// `s` without the padding characters around it.
pub fn trim_version(s: &str) -> (r: String)
    ensures
        r@ == trim_pad_end(trim_pad_start(s@)),
{
    let v = to_chars(s);
    let n = v.len();
    let mut a: usize = 0;
    assert(v@.subrange(0, n as int) =~= v@);
    while a < n && pad(v[a])
        invariant
            a <= n == v@.len(),
            trim_pad_start(v@) == trim_pad_start(v@.subrange(a as int, n as int)),
        decreases n - a,
    {
        assert(v@.subrange(a as int, n as int).drop_first() =~= v@.subrange(a + 1, n as int));
        a = a + 1;
    }
    let mut b: usize = n;
    assert(trim_pad_start(v@) == v@.subrange(a as int, n as int));
    while b > a && pad(v[b - 1])
        invariant
            a <= b <= n == v@.len(),
            trim_pad_end(v@.subrange(a as int, n as int)) == trim_pad_end(v@.subrange(a as int, b as int)),
        decreases b - a,
    {
        assert(v@.subrange(a as int, b as int).drop_last() =~= v@.subrange(a as int, b - 1));
        b = b - 1;
    }
    range_string(v.as_slice(), a, b)
}

/// Takes what the version search found in `string` (the text before the
/// match, the match, and the text after it), removes the match from
/// `string` and gives the version: the match without the padding around it.
/// Leaves `string` alone and gives `None` if nothing was found.
pub fn take_version(string: &mut String, found: Option<(String, String, String)>) -> (r: Option<String>)
    ensures
        found is None ==> r is None && final(string)@ == old(string)@,
        found matches Some((a, m, z)) ==> (final(string)@ == a@ + z@ && (r matches Some(v) && v@ == trim_pad_end(
            trim_pad_start(m@),
        ))),
{
    match found {
        Some((before, matched, after)) => {
            let ret = trim_version(matched.as_str());
            *string = before.concat(after.as_str());
            Some(ret)
        },
        None => None,
    }
}

/// Extracts a version string from what will almost always be a file stem,
/// using a search pattern based off the most common versioning conventions
/// used in ZDoom modding. If the result is `None`, `string` is unmodified.
pub fn version_from_string(string: &mut String) -> (r: Option<String>)
    ensures
        regex_find_of(VERSION_PATTERN@, old(string)@) is None ==> r is None && final(string)@ == old(string)@,
        regex_find_of(VERSION_PATTERN@, old(string)@) matches Some((a, m, z)) ==> (final(string)@ == a + z && (r matches Some(v)
            && v@ == trim_pad_end(trim_pad_start(m)))),
{
    let found = regex_find(VERSION_PATTERN, string.as_str());
    take_version(string, found)
}

/// `home::home_dir`: the user's home directory as text, empty when it
/// cannot be found. What it gives depends on the environment, so nothing is
/// claimed of it.
#[verifier::external_body]
fn home_dir() -> (r: String) {
    home::home_dir().unwrap_or_default().to_string_lossy().into_owned()
}

/// `s` with every `c` replaced by `with`.
pub open spec fn replace_char(s: Seq<char>, c: char, with: Seq<char>) -> Seq<char>
    decreases s.len(),
{
    if s.len() == 0 {
        s
    } else {
        replace_char(s.drop_last(), c, with) + if s.last() == c {
            with
        } else {
            seq![s.last()]
        }
    }
}

/// What a path becomes given the home directory `home`: an empty path is
/// the current directory, the root stays the root, and every `~` stands for
/// the home directory.
pub open spec fn expanded(path: Seq<char>, home: Seq<char>) -> Seq<char> {
    if path.len() == 0 {
        "."@
    } else if path == "/"@ {
        "/"@
    } else {
        replace_char(path, '~', home)
    }
}

/// Expands `path` as [`nice_path`] does, with `home` as the home directory.
pub fn expand_path(path: &str, home: &str) -> (r: String)
    ensures
        r@ == expanded(path@, home@),
{
    let v = to_chars(path);
    if v.len() == 0 {
        return String::from_str(".");
    }
    if crate::support::str_eq(path, "/") {
        return String::from_str("/");
    }
    let mut out = String::new();
    let mut i: usize = 0;
    while i < v.len()
        invariant
            i <= v@.len(),
            v@ == path@,
            out@ == replace_char(v@.take(i as int), '~', home@),
        decreases v@.len() - i,
    {
        assert(v@.take(i + 1).drop_last() =~= v@.take(i as int));
        if v[i] == '~' {
            out.append(home);
        } else {
            crate::support::string_push(&mut out, v[i]);
            assert(out@ =~= replace_char(v@.take(i as int), '~', home@) + seq![v@[i as int]]);
        }
        i = i + 1;
    }
    assert(v@.take(i as int) =~= v@);
    out
}

/// The pattern of an environment variable reference: `$` and a run of word
/// characters.
pub const VAR_PATTERN: &'static str = r"\$[[:word:]]+";

/// The value given for the variable `name`: the first pair that names it,
/// or nothing if none does.
pub open spec fn var_value(vars: Seq<(String, String)>, name: Seq<char>) -> Seq<char>
    decreases vars.len(),
{
    if vars.len() == 0 {
        Seq::empty()
    } else if vars[0].0@ == name {
        vars[0].1@
    } else {
        var_value(vars.drop_first(), name)
    }
}

/// `s` with each variable reference, from left to right, replaced by the
/// value of the variable it names (what follows its `$`).
pub open spec fn substituted(s: Seq<char>, vars: Seq<(String, String)>) -> Seq<char>
    decreases s.len(),
{
    match regex_find_of(VAR_PATTERN@, s) {
        Some((a, m, z)) => if m.len() > 0 && a.len() + m.len() + z.len() == s.len() {
            a + var_value(vars, m.drop_first()) + substituted(z, vars)
        } else {
            s
        },
        None => s,
    }
}

/// The value given for the variable `name` in `vars` (empty if none is).
pub fn lookup_var<'a>(vars: &'a [(String, String)], name: &str) -> (r: &'a str)
    ensures
        r@ == var_value(vars@, name@),
{
    let mut i: usize = 0;
    assert(vars@.skip(0) =~= vars@);
    while i < vars.len()
        invariant
            i <= vars@.len(),
            var_value(vars@, name@) == var_value(vars@.skip(i as int), name@),
        decreases vars@.len() - i,
    {
        assert(vars@.skip(i as int)[0] == vars@[i as int]);
        if crate::support::str_eq(vars[i].0.as_str(), name) {
            return vars[i].1.as_str();
        }
        assert(vars@.skip(i as int).drop_first() =~= vars@.skip(i + 1));
        i = i + 1;
    }
    proof {
        reveal_strlit("");
    }
    ""
}

/// Replaces each variable reference in `text` by the value `vars` gives for
/// it, as [`substituted`] says.
pub fn substitute_vars(text: &str, vars: &[(String, String)]) -> (r: String)
    ensures
        r@ == substituted(text@, vars@),
{
    let mut out = String::new();
    let mut rest = text.to_owned();
    loop
        invariant
            out@ + substituted(rest@, vars@) == substituted(text@, vars@),
        decreases rest@.len(),
    {
        match regex_find(VAR_PATTERN, rest.as_str()) {
            None => {
                out.append(rest.as_str());
                return out;
            },
            Some((before, matched, after)) => {
                let n = matched.as_str().unicode_len();
                if n == 0 {
                    out.append(rest.as_str());
                    return out;
                }
                let name = matched.as_str().substring_char(1, n);
                assert(name@ =~= matched@.drop_first());
                let value = lookup_var(vars, name);
                let ghost old_out = out@;
                out.append(before.as_str());
                out.append(value);
                assert(out@ + substituted(after@, vars@) =~= old_out + (before@ + var_value(vars@, matched@.drop_first())
                    + substituted(after@, vars@)));
                rest = after;
            },
        }
    }
}

/// What [`nice_path`] makes of `path`, given the home directory `home` and
/// the environment `vars`: an empty path is the current directory, the root
/// stays the root, and otherwise every `~` stands for the home directory and
/// every variable reference for its value.
pub open spec fn nice(path: Seq<char>, home: Seq<char>, vars: Seq<(String, String)>) -> Seq<char> {
    if path.len() == 0 || path == "/"@ {
        expanded(path, home)
    } else {
        substituted(replace_char(path, '~', home), vars)
    }
}

/// Expands `~` to the user's home directory and substitutes the variables of
/// the environment `vars` (name and value pairs); an empty path becomes `.`
/// and the root stays as it is.
pub fn nice_path(path: &str, vars: &[(String, String)]) -> (r: String)
    ensures
        exists|home: Seq<char>| r@ == nice(path@, home, vars@),
{
    let home = home_dir();
    let e = expand_path(path, home.as_str());
    if path.unicode_len() == 0 || crate::support::str_eq(path, "/") {
        assert(e@ == nice(path@, home@, vars@));
        return e;
    }
    let r = substitute_vars(e.as_str(), vars);
    assert(r@ == nice(path@, home@, vars@));
    r
}

} // verus!
