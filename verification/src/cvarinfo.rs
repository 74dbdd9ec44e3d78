//! Reading the ZDoom-family CVARINFO lump format: declarations of console
//! variables, each ending in a semicolon, such as
//! `server noarchive int some_id = 42;`.
//!
//! The result is the list of declarations with their settings; building the
//! `prefs` table of a package manifest from them is the caller's business.

use vstd::prelude::*;

use crate::text::{
    eq_ignore_ascii_case, find_char, first_index, is_ws_only, range_eq_ic, range_string, to_chars, token_ranges,
    tokens, trim, trim_range, ws_only,
};

verus! {

#[verifier::external_type_specification]
#[verifier::external_body]
pub struct ExParseBoolError(std::str::ParseBoolError);

#[verifier::external_type_specification]
#[verifier::external_body]
pub struct ExParseIntError(std::num::ParseIntError);

/// Why a declaration could not be read.
#[derive(Debug)]
pub enum Error {
    Empty,
    Unterminated,
    NoScope,
    InvalidScope(String),
    NoKind,
    NoId,
    InvalidId,
    KeywordId,
    DefaultParseBool(std::str::ParseBoolError),
    DefaultParseInt(std::num::ParseIntError),
}

/// The kind of an [`Error`], without what it carries.
#[derive(Debug, Clone, Copy, PartialEq, Eq)]
pub enum Fault {
    Empty,
    Unterminated,
    NoScope,
    InvalidScope,
    NoKind,
    NoId,
    InvalidId,
    KeywordId,
    DefaultParseBool,
    DefaultParseInt,
}

pub open spec fn fault_of(e: Error) -> Fault {
    match e {
        Error::Empty => Fault::Empty,
        Error::Unterminated => Fault::Unterminated,
        Error::NoScope => Fault::NoScope,
        Error::InvalidScope(_) => Fault::InvalidScope,
        Error::NoKind => Fault::NoKind,
        Error::NoId => Fault::NoId,
        Error::InvalidId => Fault::InvalidId,
        Error::KeywordId => Fault::KeywordId,
        Error::DefaultParseBool(_) => Fault::DefaultParseBool,
        Error::DefaultParseInt(_) => Fault::DefaultParseInt,
    }
}

impl Error {
    pub fn fault(&self) -> (r: Fault)
        ensures
            r == fault_of(*self),
    {
        match self {
            Error::Empty => Fault::Empty,
            Error::Unterminated => Fault::Unterminated,
            Error::NoScope => Fault::NoScope,
            Error::InvalidScope(_) => Fault::InvalidScope,
            Error::NoKind => Fault::NoKind,
            Error::NoId => Fault::NoId,
            Error::InvalidId => Fault::InvalidId,
            Error::KeywordId => Fault::KeywordId,
            Error::DefaultParseBool(_) => Fault::DefaultParseBool,
            Error::DefaultParseInt(_) => Fault::DefaultParseInt,
        }
    }
}

#[derive(Debug, Clone, Copy, PartialEq, Eq)]
pub enum CVarKind {
    Bool,
    Int,
    Float,
    String,
    Color,
}

/// Whether a variable is kept by the server or by each client.
#[derive(Debug, Clone, Copy, PartialEq, Eq)]
pub enum Scope {
    Server,
    Client,
}

/// A declared default value. A floating-point default is kept as written.
#[derive(Debug, Clone, PartialEq, Eq)]
pub enum CVarDefault {
    Bool(bool),
    Int(i32),
    Float(String),
    Text(String),
}

/// One console variable declaration.
#[derive(Debug, Clone, PartialEq, Eq)]
pub struct CVarDecl {
    pub id: String,
    pub scope: Scope,
    pub kind: CVarKind,
    pub default: Option<CVarDefault>,
    /// False if declared `nosave`.
    pub saved: bool,
    pub latch: bool,
    pub cheat: bool,
    /// False if declared `noarchive`.
    pub written: bool,
}

/// The value of a run of decimal digits.
pub open spec fn digits_value(d: Seq<char>) -> int
    decreases d.len(),
{
    if d.len() == 0 {
        0
    } else {
        digits_value(d.drop_last()) * 10 + (d.last() as int - '0' as int)
    }
}

pub open spec fn all_digits(d: Seq<char>) -> bool {
    d.len() > 0 && forall|i: int| 0 <= i < d.len() ==> '0' <= #[trigger] d[i] <= '9'
}

/// A 32-bit integer written as an optional `+` or `-` followed by decimal
/// digits, if it is one and is in range.
pub open spec fn spec_parse_i32(s: Seq<char>) -> Option<i32> {
    let neg = s.len() > 0 && s[0] == '-';
    let d = if s.len() > 0 && (s[0] == '-' || s[0] == '+') {
        s.drop_first()
    } else {
        s
    };
    let v = if neg {
        -digits_value(d)
    } else {
        digits_value(d)
    };
    if all_digits(d) && i32::MIN <= v <= i32::MAX {
        Some(v as i32)
    } else {
        None
    }
}

/// `<i32 as FromStr>::from_str`: accepts exactly an optional sign followed by
/// decimal digits whose value fits in an `i32`, and gives that value.
#[verifier::external_body]
fn parse_i32(s: &str) -> (r: Result<i32, std::num::ParseIntError>)
    ensures
        r is Ok <==> spec_parse_i32(s@) is Some,
        r matches Ok(v) ==> spec_parse_i32(s@) == Some(v),
{
    s.parse::<i32>()
}

/// `<bool as FromStr>::from_str`: accepts exactly `true` and `false`.
#[verifier::external_body]
fn parse_bool(s: &str) -> (r: Result<bool, std::str::ParseBoolError>)
    ensures
        r is Ok <==> (s@ == "true"@ || s@ == "false"@),
        r matches Ok(b) ==> b == (s@ == "true"@),
{
    s.parse::<bool>()
}

/// `s` without trailing `c`s.
pub open spec fn trim_end_char(s: Seq<char>, c: char) -> Seq<char>
    decreases s.len(),
{
    if s.len() > 0 && s.last() == c {
        trim_end_char(s.drop_last(), c)
    } else {
        s
    }
}

/// `s` without leading `c`s.
pub open spec fn trim_start_char(s: Seq<char>, c: char) -> Seq<char>
    decreases s.len(),
{
    if s.len() > 0 && s[0] == c {
        trim_start_char(s.drop_first(), c)
    } else {
        s
    }
}

/// Where the declaration that opens `s` ends: just past its semicolon, or
/// at the end of `s` if there is none.
pub open spec fn piece_end(s: Seq<char>) -> int {
    match first_index(s, ';') {
        Some(i) => i + 1,
        None => s.len() as int,
    }
}

pub proof fn lemma_first_index(s: Seq<char>, c: char)
    ensures
        first_index(s, c) matches Some(i) ==> 0 <= i < s.len() && s[i] == c,
        first_index(s, c) matches Some(i) ==> forall|j: int| 0 <= j < i ==> s[j] != c,
        first_index(s, c) is None ==> forall|j: int| 0 <= j < s.len() ==> s[j] != c,
    decreases s.len(),
{
    if s.len() > 0 {
        lemma_first_index(s.drop_first(), c);
        if s[0] != c {
            assert forall|j: int| 0 < j < s.len() implies s[j] == s.drop_first()[j - 1] by {}
        }
    }
}

/// The declarations of a CVARINFO lump: the text split after each semicolon,
/// leaving out the pieces that hold only whitespace.
pub open spec fn decl_pieces(s: Seq<char>) -> Seq<Seq<char>>
    decreases s.len(),
{
    if s.len() == 0 {
        Seq::empty()
    } else {
        let n = piece_end(s);
        proof {
            lemma_first_index(s, ';');
        }
        if ws_only(s.take(n)) {
            decl_pieces(s.skip(n))
        } else {
            seq![s.take(n)] + decl_pieces(s.skip(n))
        }
    }
}

/// What stands before the first `=` of a declaration.
pub open spec fn lhs(p: Seq<char>) -> Seq<char> {
    match first_index(p, '=') {
        Some(i) => p.take(i),
        None => p,
    }
}

/// What stands between the first and the second `=` of a declaration, if
/// it has an `=`.
pub open spec fn rhs(p: Seq<char>) -> Option<Seq<char>> {
    match first_index(p, '=') {
        Some(i) => {
            let r = p.skip(i + 1);
            Some(
                match first_index(r, '=') {
                    Some(j) => r.take(j),
                    None => r,
                },
            )
        },
        None => None,
    }
}

/// The words before the `=`: scope, flags, kind and name.
pub open spec fn words(p: Seq<char>) -> Seq<Seq<char>> {
    tokens(trim(lhs(p)))
}

pub open spec fn is_scope(w: Seq<char>) -> bool {
    eq_ignore_ascii_case(w, "server"@) || eq_ignore_ascii_case(w, "user"@) || eq_ignore_ascii_case(w, "nosave"@)
}

pub open spec fn is_id_char(c: char) -> bool {
    ('a' <= c <= 'z') || ('A' <= c <= 'Z') || ('0' <= c <= '9') || c == '_'
}

pub open spec fn valid_id(w: Seq<char>) -> bool {
    forall|i: int| 0 <= i < w.len() ==> is_id_char(#[trigger] w[i])
}

pub open spec fn keywords() -> Seq<Seq<char>> {
    seq![
        "server"@,
        "user"@,
        "nosave"@,
        "int"@,
        "float"@,
        "color"@,
        "bool"@,
        "string"@,
        "noarchive"@,
        "cheat"@,
        "latch"@,
    ]
}

pub open spec fn is_keyword(w: Seq<char>) -> bool {
    exists|k: int| 0 <= k < 11 && eq_ignore_ascii_case(w, #[trigger] keywords()[k])
}

pub open spec fn kind_of(w: Seq<char>) -> Option<CVarKind> {
    if eq_ignore_ascii_case(w, "bool"@) {
        Some(CVarKind::Bool)
    } else if eq_ignore_ascii_case(w, "int"@) {
        Some(CVarKind::Int)
    } else if eq_ignore_ascii_case(w, "float"@) {
        Some(CVarKind::Float)
    } else if eq_ignore_ascii_case(w, "color"@) {
        Some(CVarKind::Color)
    } else if eq_ignore_ascii_case(w, "string"@) {
        Some(CVarKind::String)
    } else {
        None
    }
}

/// The default's text: the part after `=`, trimmed, without trailing semicolons.
pub open spec fn default_text(r: Seq<char>) -> Seq<char> {
    trim_end_char(trim(r), ';')
}

/// Whether a word after the scope, other than the one naming the kind, is `flag`.
pub open spec fn has_flag(w: Seq<Seq<char>>, flag: Seq<char>) -> bool {
    exists|j: int| 1 <= j < w.len() && j != w.len() - 2 && eq_ignore_ascii_case(#[trigger] w[j], flag)
}

/// What is wrong with a declaration, if anything, checked in this order:
/// the final semicolon, the scope, the name, the kind, then the default.
pub open spec fn decl_fault(p: Seq<char>) -> Option<Fault> {
    let w = words(p);
    if !(p.len() > 0 && p.last() == ';') {
        Some(Fault::Unterminated)
    } else if w.len() == 0 {
        Some(Fault::NoScope)
    } else if !is_scope(w[0]) {
        Some(Fault::InvalidScope)
    } else if w.len() == 1 {
        Some(Fault::NoId)
    } else if !valid_id(w.last()) {
        Some(Fault::InvalidId)
    } else if is_keyword(w.last()) {
        Some(Fault::KeywordId)
    } else if w.len() < 3 || kind_of(w[w.len() - 2]) is None {
        Some(Fault::NoKind)
    } else {
        match rhs(p) {
            Some(r) => {
                let d = default_text(r);
                match kind_of(w[w.len() - 2])->0 {
                    CVarKind::Bool => if d == "true"@ || d == "false"@ {
                        None
                    } else {
                        Some(Fault::DefaultParseBool)
                    },
                    CVarKind::Int => if spec_parse_i32(d) is Some {
                        None
                    } else {
                        Some(Fault::DefaultParseInt)
                    },
                    _ => None,
                }
            },
            None => None,
        }
    }
}

/// Whether `e` reports what is wrong with `p`.
pub open spec fn error_matches(e: Error, p: Seq<char>) -> bool {
    &&& decl_fault(p) == Some(fault_of(e))
    &&& e matches Error::InvalidScope(s) ==> s@ == words(p)[0]
}

/// Whether `dv` is the default that the text `d` gives a variable of kind `k`.
pub open spec fn default_matches(dv: CVarDefault, k: CVarKind, d: Seq<char>) -> bool {
    match k {
        CVarKind::Bool => dv == CVarDefault::Bool(d == "true"@),
        CVarKind::Int => dv == CVarDefault::Int(spec_parse_i32(d)->0),
        CVarKind::Float => dv matches CVarDefault::Float(s) && s@ == d,
        _ => dv matches CVarDefault::Text(s) && s@ == trim_start_char(trim_end_char(d, '"'), '"'),
    }
}

/// Whether `c` is what the (faultless) declaration `p` declares.
pub open spec fn decl_matches(c: CVarDecl, p: Seq<char>) -> bool {
    let w = words(p);
    let nosave = eq_ignore_ascii_case(w[0], "nosave"@) || has_flag(w, "nosave"@);
    &&& c.id@ == w.last()
    &&& c.scope == (if eq_ignore_ascii_case(w[0], "server"@) { Scope::Server } else { Scope::Client })
    &&& c.kind == kind_of(w[w.len() - 2])->0
    &&& c.saved == !nosave
    &&& c.latch == has_flag(w, "latch"@)
    &&& c.cheat == has_flag(w, "cheat"@)
    &&& c.written == !has_flag(w, "noarchive"@)
    &&& match rhs(p) {
        Some(r) => c.default matches Some(dv) && default_matches(dv, c.kind, default_text(r)),
        None => c.default is None,
    }
}

fn id_char(c: char) -> (r: bool)
    ensures
        r == is_id_char(c),
{
    ('a' <= c && c <= 'z') || ('A' <= c && c <= 'Z') || ('0' <= c && c <= '9') || c == '_'
}

fn valid_id_range(v: &[char], lo: usize, hi: usize) -> (r: bool)
    requires
        lo <= hi <= v@.len(),
    ensures
        r == valid_id(v@.subrange(lo as int, hi as int)),
{
    let mut k = lo;
    while k < hi
        invariant
            lo <= k <= hi <= v@.len(),
            forall|i: int| lo <= i < k ==> is_id_char(#[trigger] v@[i]),
        decreases hi - k,
    {
        if !id_char(v[k]) {
            assert(!is_id_char(v@.subrange(lo as int, hi as int)[k - lo]));
            return false;
        }
        k = k + 1;
    }
    assert forall|i: int| 0 <= i < hi - lo implies is_id_char(#[trigger] v@.subrange(lo as int, hi as int)[i]) by {
        assert(v@.subrange(lo as int, hi as int)[i] == v@[lo + i]);
    }
    true
}

fn keyword_range(v: &[char], lo: usize, hi: usize) -> (r: bool)
    requires
        lo <= hi <= v@.len(),
    ensures
        r == is_keyword(v@.subrange(lo as int, hi as int)),
{
    let ghost w = v@.subrange(lo as int, hi as int);
    let ghost kw = keywords();
    let r = range_eq_ic(v, lo, hi, "server") || range_eq_ic(v, lo, hi, "user") || range_eq_ic(v, lo, hi, "nosave")
        || range_eq_ic(v, lo, hi, "int") || range_eq_ic(v, lo, hi, "float") || range_eq_ic(v, lo, hi, "color")
        || range_eq_ic(v, lo, hi, "bool") || range_eq_ic(v, lo, hi, "string") || range_eq_ic(v, lo, hi, "noarchive")
        || range_eq_ic(v, lo, hi, "cheat") || range_eq_ic(v, lo, hi, "latch");
    assert(kw[0] == "server"@ && kw[1] == "user"@ && kw[2] == "nosave"@ && kw[3] == "int"@);
    assert(kw[4] == "float"@ && kw[5] == "color"@ && kw[6] == "bool"@ && kw[7] == "string"@);
    assert(kw[8] == "noarchive"@ && kw[9] == "cheat"@ && kw[10] == "latch"@);
    r
}

fn kind_range(v: &[char], lo: usize, hi: usize) -> (r: Option<CVarKind>)
    requires
        lo <= hi <= v@.len(),
    ensures
        r == kind_of(v@.subrange(lo as int, hi as int)),
{
    if range_eq_ic(v, lo, hi, "bool") {
        Some(CVarKind::Bool)
    } else if range_eq_ic(v, lo, hi, "int") {
        Some(CVarKind::Int)
    } else if range_eq_ic(v, lo, hi, "float") {
        Some(CVarKind::Float)
    } else if range_eq_ic(v, lo, hi, "color") {
        Some(CVarKind::Color)
    } else if range_eq_ic(v, lo, hi, "string") {
        Some(CVarKind::String)
    } else {
        None
    }
}

fn trim_end_range(v: &[char], lo: usize, hi: usize, c: char) -> (r: usize)
    requires
        lo <= hi <= v@.len(),
    ensures
        lo <= r <= hi,
        v@.subrange(lo as int, r as int) == trim_end_char(v@.subrange(lo as int, hi as int), c),
{
    let mut k = hi;
    while k > lo && v[k - 1] == c
        invariant
            lo <= k <= hi <= v@.len(),
            trim_end_char(v@.subrange(lo as int, hi as int), c) == trim_end_char(v@.subrange(lo as int, k as int), c),
        decreases k - lo,
    {
        assert(v@.subrange(lo as int, k as int).drop_last() =~= v@.subrange(lo as int, k - 1));
        k = k - 1;
    }
    k
}

fn trim_start_range(v: &[char], lo: usize, hi: usize, c: char) -> (r: usize)
    requires
        lo <= hi <= v@.len(),
    ensures
        lo <= r <= hi,
        v@.subrange(r as int, hi as int) == trim_start_char(v@.subrange(lo as int, hi as int), c),
{
    let mut k = lo;
    while k < hi && v[k] == c
        invariant
            lo <= k <= hi <= v@.len(),
            trim_start_char(v@.subrange(lo as int, hi as int), c) == trim_start_char(v@.subrange(k as int, hi as int), c),
        decreases hi - k,
    {
        assert(v@.subrange(k as int, hi as int).drop_first() =~= v@.subrange(k + 1, hi as int));
        k = k + 1;
    }
    k
}

/// Whether one of the words at `toks` (positions `1..`, except the one
/// before last) is `flag`, ignoring ASCII case.
fn flag_in(v: &[char], toks: &Vec<(usize, usize)>, flag: &str, ghost_w: Ghost<Seq<Seq<char>>>) -> (r: bool)
    requires
        toks@.len() == ghost_w@.len(),
        forall|j: int|
            0 <= j < toks@.len() ==> {
                let t = #[trigger] toks@[j];
                t.0 <= t.1 <= v@.len() && v@.subrange(t.0 as int, t.1 as int) == ghost_w@[j]
            },
    ensures
        r == has_flag(ghost_w@, flag@),
{
    let n = toks.len();
    let mut j: usize = 1;
    while j < n
        invariant
            1 <= j,
            n == toks@.len() == ghost_w@.len(),
            forall|i: int|
                0 <= i < toks@.len() ==> {
                    let t = #[trigger] toks@[i];
                    t.0 <= t.1 <= v@.len() && v@.subrange(t.0 as int, t.1 as int) == ghost_w@[i]
                },
            forall|i: int| 1 <= i < j && i < n && i != n - 2 ==> !eq_ignore_ascii_case(#[trigger] ghost_w@[i], flag@),
        decreases n - j,
    {
        if n - j != 2 {
            let (a, b) = toks[j];
            if range_eq_ic(v, a, b, flag) {
                return true;
            }
        }
        j = j + 1;
    }
    false
}

/// Reads one declaration: `v`'s characters in `[lo, hi)`, which are not all whitespace.
fn parse_decl(v: &[char], lo: usize, hi: usize) -> (r: Result<CVarDecl, Error>)
    requires
        lo <= hi <= v@.len(),
        !ws_only(v@.subrange(lo as int, hi as int)),
    ensures
        r matches Ok(c) ==> decl_fault(v@.subrange(lo as int, hi as int)) is None && decl_matches(
            c,
            v@.subrange(lo as int, hi as int),
        ),
        r matches Err(e) ==> error_matches(e, v@.subrange(lo as int, hi as int)),
{
    let ghost p = v@.subrange(lo as int, hi as int);
    if !(hi > lo && v[hi - 1] == ';') {
        return Err(Error::Unterminated);
    }
    let eq = find_char(v, lo, hi, '=');
    assert(lhs(p) =~= v@.subrange(lo as int, eq as int));
    let (a, b) = trim_range(v, lo, eq);
    let toks = token_ranges(v, a, b);
    let ghost w = words(p);
    assert(w == tokens(v@.subrange(a as int, b as int)));
    let n = toks.len();
    if n == 0 {
        return Err(Error::NoScope);
    }
    let (s0, e0) = toks[0];
    let server = range_eq_ic(v, s0, e0, "server");
    let user = range_eq_ic(v, s0, e0, "user");
    let nosave_scope = range_eq_ic(v, s0, e0, "nosave");
    if !server && !user && !nosave_scope {
        return Err(Error::InvalidScope(range_string(v, s0, e0)));
    }
    if n == 1 {
        return Err(Error::NoId);
    }
    let (si, ei) = toks[n - 1];
    assert(v@.subrange(si as int, ei as int) == w.last());
    if !valid_id_range(v, si, ei) {
        return Err(Error::InvalidId);
    }
    if keyword_range(v, si, ei) {
        return Err(Error::KeywordId);
    }
    if n < 3 {
        return Err(Error::NoKind);
    }
    let (sk, ek) = toks[n - 2];
    let kind = match kind_range(v, sk, ek) {
        Some(k) => k,
        None => {
            return Err(Error::NoKind);
        },
    };
    let cheat = flag_in(v, &toks, "cheat", Ghost(w));
    let latch = flag_in(v, &toks, "latch", Ghost(w));
    let noarchive = flag_in(v, &toks, "noarchive", Ghost(w));
    let nosave = nosave_scope || flag_in(v, &toks, "nosave", Ghost(w));
    let default = if eq < hi {
        let r_hi = find_char(v, eq + 1, hi, '=');
        assert(p.skip(eq - lo + 1) =~= v@.subrange(eq + 1, hi as int));
        assert(rhs(p) == Some(v@.subrange(eq + 1, r_hi as int))) by {
            assert(p.skip(eq - lo + 1).take(r_hi - (eq + 1)) =~= v@.subrange(eq + 1, r_hi as int));
        }
        let (ta, tb) = trim_range(v, eq + 1, r_hi);
        let te = trim_end_range(v, ta, tb, ';');
        let ghost d = v@.subrange(ta as int, te as int);
        assert(d == default_text(rhs(p)->0));
        match kind {
            CVarKind::Bool => {
                let text = range_string(v, ta, te);
                match parse_bool(text.as_str()) {
                    Ok(bv) => Some(CVarDefault::Bool(bv)),
                    Err(e) => {
                        return Err(Error::DefaultParseBool(e));
                    },
                }
            },
            CVarKind::Int => {
                let text = range_string(v, ta, te);
                match parse_i32(text.as_str()) {
                    Ok(iv) => Some(CVarDefault::Int(iv)),
                    Err(e) => {
                        return Err(Error::DefaultParseInt(e));
                    },
                }
            },
            CVarKind::Float => Some(CVarDefault::Float(range_string(v, ta, te))),
            _ => {
                let qe = trim_end_range(v, ta, te, '"');
                let qs = trim_start_range(v, ta, qe, '"');
                Some(CVarDefault::Text(range_string(v, qs, qe)))
            },
        }
    } else {
        assert(rhs(p) is None);
        None
    };
    let id = range_string(v, si, ei);
    Ok(
        CVarDecl {
            id,
            scope: if server {
                Scope::Server
            } else {
                Scope::Client
            },
            kind,
            default,
            saved: !nosave,
            latch,
            cheat,
            written: !noarchive,
        },
    )
}

/// Whether `r` is what reading the declarations `ps` gives: every
/// declaration, in order, if none is faulty; otherwise the error of the first
/// faulty one.
pub open spec fn parse_matches(r: Result<Vec<CVarDecl>, Error>, ps: Seq<Seq<char>>) -> bool {
    match r {
        Ok(ds) => {
            &&& forall|k: int| 0 <= k < ps.len() ==> decl_fault(#[trigger] ps[k]) is None
            &&& ds@.len() == ps.len()
            &&& forall|k: int| 0 <= k < ps.len() ==> decl_matches(#[trigger] ds@[k], ps[k])
        },
        Err(e) => exists|j: int|
            0 <= j < ps.len() && (forall|k: int| 0 <= k < j ==> decl_fault(#[trigger] ps[k]) is None) && error_matches(
                e,
                #[trigger] ps[j],
            ),
    }
}

/// Whether `r` is what reading the declarations `ps` up to the first faulty
/// one gives: the declarations before it, in order, and its error; or every
/// declaration and no error, if none is faulty.
pub open spec fn prefix_matches(r: (Vec<CVarDecl>, Option<Error>), ps: Seq<Seq<char>>) -> bool {
    let (ds, fault) = r;
    let n = ds@.len() as int;
    &&& n <= ps.len()
    &&& forall|k: int| 0 <= k < n ==> decl_fault(#[trigger] ps[k]) is None
    &&& forall|k: int| 0 <= k < n ==> decl_matches(#[trigger] ds@[k], ps[k])
    &&& match fault {
        None => n == ps.len(),
        Some(e) => n < ps.len() && error_matches(e, ps[n]),
    }
}

/// Reads the console variable declarations of a CVARINFO lump, one after
/// another, up to the first faulty one.
pub fn parse_prefix(lump: &str) -> (r: (Vec<CVarDecl>, Option<Error>))
    ensures
        prefix_matches(r, decl_pieces(lump@)),
{
    let v = to_chars(lump);
    let len = v.len();
    let mut out: Vec<CVarDecl> = Vec::new();
    let mut start: usize = 0;
    let ghost mut done: Seq<Seq<char>> = Seq::empty();
    assert(v@.subrange(0, len as int) =~= v@);
    assert(done + decl_pieces(v@) =~= decl_pieces(v@));
    while start < len
        invariant
            len == v@.len(),
            v@ == lump@,
            start <= len,
            decl_pieces(v@) == done + decl_pieces(v@.subrange(start as int, len as int)),
            out@.len() == done.len(),
            forall|k: int| 0 <= k < done.len() ==> decl_fault(#[trigger] done[k]) is None,
            forall|k: int| 0 <= k < done.len() ==> decl_matches(#[trigger] out@[k], done[k]),
        decreases len - start,
    {
        let ghost rest = v@.subrange(start as int, len as int);
        let semi = find_char(v.as_slice(), start, len, ';');
        let end = if semi < len {
            semi + 1
        } else {
            len
        };
        proof {
            lemma_first_index(rest, ';');
            assert(piece_end(rest) == end - start);
            assert(rest.take(end - start) =~= v@.subrange(start as int, end as int));
            assert(rest.skip(end - start) =~= v@.subrange(end as int, len as int));
        }
        if !is_ws_only(v.as_slice(), start, end) {
            match parse_decl(v.as_slice(), start, end) {
                Ok(c) => {
                    out.push(c);
                    proof {
                        let p = v@.subrange(start as int, end as int);
                        assert(done.push(p) + decl_pieces(v@.subrange(end as int, len as int)) =~= done + (seq![p]
                            + decl_pieces(v@.subrange(end as int, len as int))));
                        done = done.push(p);
                    }
                },
                Err(e) => {
                    proof {
                        let p = v@.subrange(start as int, end as int);
                        let ps = decl_pieces(v@);
                        assert(ps[done.len() as int] == p);
                        assert(forall|k: int| 0 <= k < done.len() ==> ps[k] == done[k]);
                    }
                    return (out, Some(e));
                },
            }
        }
        start = end;
    }
    proof {
        assert(v@.subrange(len as int, len as int).len() == 0);
        assert(decl_pieces(v@) =~= done);
    }
    (out, None)
}

/// Reads the console variable declarations of a CVARINFO lump.
pub fn parse(lump: &str) -> (r: Result<Vec<CVarDecl>, Error>)
    ensures
        parse_matches(r, decl_pieces(lump@)),
{
    let (decls, fault) = parse_prefix(lump);
    match fault {
        None => Ok(decls),
        Some(e) => {
            proof {
                let ps = decl_pieces(lump@);
                let j = decls@.len() as int;
                assert(error_matches(e, ps[j]));
            }
            Err(e)
        },
    }
}

proof fn lemma_first_index_prefix(a: Seq<char>, b: Seq<char>, c: char)
    requires
        first_index(a, c) is Some,
    ensures
        first_index(a + b, c) == first_index(a, c),
    decreases a.len(),
{
    if a[0] != c {
        assert((a + b).drop_first() =~= a.drop_first() + b);
        lemma_first_index_prefix(a.drop_first(), b, c);
    }
}

/// Declarations are read one after another: the declarations of two lumps
/// joined, the first of which is empty or ends with a semicolon, are those
/// of the first followed by those of the second.
pub proof fn law_joined_lumps_join_declarations(a: Seq<char>, b: Seq<char>)
    requires
        a.len() == 0 || a.last() == ';',
    ensures
        decl_pieces(a + b) == decl_pieces(a) + decl_pieces(b),
    decreases a.len(),
{
    if a.len() == 0 {
        assert(a + b =~= b);
        assert(decl_pieces(a) + decl_pieces(b) =~= decl_pieces(b));
    } else {
        lemma_first_index(a, ';');
        if first_index(a, ';') is None {
            assert(a[a.len() - 1] == ';');
        }
        lemma_first_index_prefix(a, b, ';');
        let n = piece_end(a);
        assert(piece_end(a + b) == n);
        assert((a + b).take(n) =~= a.take(n));
        assert((a + b).skip(n) =~= a.skip(n) + b);
        let rest = a.skip(n);
        if rest.len() > 0 {
            assert(rest.last() == a.last());
        }
        law_joined_lumps_join_declarations(rest, b);
        if ws_only(a.take(n)) {
        } else {
            assert(seq![a.take(n)] + (decl_pieces(rest) + decl_pieces(b)) =~= (seq![a.take(n)] + decl_pieces(rest))
                + decl_pieces(b));
        }
    }
}

} // verus!
