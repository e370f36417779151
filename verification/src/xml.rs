//! The markup reader of the document format: it turns the raw text into a
//! flat sequence of tag events (open, self-closing, close), with attribute
//! values decoded and each event carrying the character position of its
//! `<`, for diagnostics.
//!
//! The reader covers what the document format uses: elements, double- or
//! single-quoted attribute values with the five named character references,
//! comments, processing instructions and declarations (both skipped), and
//! text content (ignored). The whole reader is specified by the recursive
//! functions below, so scanning the same text twice yields the same events
//! or the same failure.

use vstd::prelude::*;
use vstd::string::*;
use crate::errors::{DecodeError, DecodeErrorV, MalformedKind};
use crate::text::str_eq;

verus! {

/// A structural failure, with the character position where the failing
/// construct starts.
pub ghost struct MalfV {
    pub kind: MalformedKind,
    pub pos: int,
}

/// One tag event of the document text.
#[derive(Debug, Clone)]
pub enum XmlToken {
    /// `<name a="v" ...>`
    Open { name: String, attrs: Vec<(String, String)>, pos: usize },
    /// `<name a="v" .../>`
    SelfClose { name: String, attrs: Vec<(String, String)>, pos: usize },
    /// `</name>`
    Close { name: String, pos: usize },
}

/// The mathematical shape of a tag event.
pub ghost enum TokV {
    Open { name: Seq<char>, attrs: Seq<(Seq<char>, Seq<char>)>, pos: int },
    SelfClose { name: Seq<char>, attrs: Seq<(Seq<char>, Seq<char>)>, pos: int },
    Close { name: Seq<char>, pos: int },
}

/// The views of an attribute list.
pub open spec fn attrs_view(attrs: Seq<(String, String)>) -> Seq<(Seq<char>, Seq<char>)> {
    attrs.map_values(|p: (String, String)| (p.0@, p.1@))
}

impl View for XmlToken {
    type V = TokV;

    open spec fn view(&self) -> TokV {
        match self {
            XmlToken::Open { name, attrs, pos } => TokV::Open {
                name: name@,
                attrs: attrs_view(attrs@),
                pos: *pos as int,
            },
            XmlToken::SelfClose { name, attrs, pos } => TokV::SelfClose {
                name: name@,
                attrs: attrs_view(attrs@),
                pos: *pos as int,
            },
            XmlToken::Close { name, pos } => TokV::Close { name: name@, pos: *pos as int },
        }
    }
}

/// The views of a token list.
pub open spec fn toks_view(toks: Seq<XmlToken>) -> Seq<TokV> {
    toks.map_values(|t: XmlToken| t@)
}

/// Whitespace of the document format.
pub open spec fn is_ws(c: char) -> bool {
    c == ' ' || c == '\t' || c == '\n' || c == '\r'
}

/// A character that may stand in a tag or attribute name.
pub open spec fn is_name_char(c: char) -> bool {
    !is_ws(c) && c != '>' && c != '/' && c != '=' && c != '<' && c != '"' && c != '\'' && c != '&'
}

/// The first position at or after `i` that holds no whitespace.
pub open spec fn skip_ws_from(s: Seq<char>, i: int) -> int
    decreases s.len() - i,
{
    if i >= s.len() || !is_ws(s[i]) {
        i
    } else {
        skip_ws_from(s, i + 1)
    }
}

/// The first position at or after `i` that ends a name.
pub open spec fn name_end_from(s: Seq<char>, i: int) -> int
    decreases s.len() - i,
{
    if i >= s.len() || !is_name_char(s[i]) {
        i
    } else {
        name_end_from(s, i + 1)
    }
}

/// The first position at or after `i` holding `<`, or the length.
pub open spec fn find_lt_from(s: Seq<char>, i: int) -> int
    decreases s.len() - i,
{
    if i >= s.len() {
        s.len() as int
    } else if s[i] == '<' {
        i
    } else {
        find_lt_from(s, i + 1)
    }
}

/// The first position at or after `i` holding `>`, if any.
pub open spec fn find_gt_from(s: Seq<char>, i: int) -> Option<int>
    decreases s.len() - i,
{
    if i >= s.len() {
        None
    } else if s[i] == '>' {
        Some(i)
    } else {
        find_gt_from(s, i + 1)
    }
}

/// The first position at or after `i` holding `;`, if any.
pub open spec fn find_semi_from(s: Seq<char>, i: int) -> Option<int>
    decreases s.len() - i,
{
    if i >= s.len() {
        None
    } else if s[i] == ';' {
        Some(i)
    } else {
        find_semi_from(s, i + 1)
    }
}

/// The first position at or after `i` starting `-->`, if any.
pub open spec fn comment_end_from(s: Seq<char>, i: int) -> Option<int>
    decreases s.len() - i,
{
    if i + 3 > s.len() {
        None
    } else if s[i] == '-' && s[i + 1] == '-' && s[i + 2] == '>' {
        Some(i)
    } else {
        comment_end_from(s, i + 1)
    }
}

/// The first position at or after `i` starting `?>`, if any.
pub open spec fn pi_end_from(s: Seq<char>, i: int) -> Option<int>
    decreases s.len() - i,
{
    if i + 2 > s.len() {
        None
    } else if s[i] == '?' && s[i + 1] == '>' {
        Some(i)
    } else {
        pi_end_from(s, i + 1)
    }
}

/// The character a named reference stands for, for the five named
/// references of the format.
pub open spec fn entity_char(name: Seq<char>) -> Option<char> {
    if name == "amp"@ {
        Some('&')
    } else if name == "lt"@ {
        Some('<')
    } else if name == "gt"@ {
        Some('>')
    } else if name == "quot"@ {
        Some('"')
    } else if name == "apos"@ {
        Some('\'')
    } else {
        None
    }
}

/// The next scan position: `cand` where it advances and stays in bounds,
/// else the smallest legal advance. The fallback arm never describes a
/// reachable scan, it only keeps the recursion visibly well-founded.
pub open spec fn advance(s: Seq<char>, i: int, cand: int) -> int {
    if i < cand && cand <= s.len() {
        cand
    } else if i < s.len() {
        i + 1
    } else {
        s.len() as int
    }
}

/// The decoded text of an attribute value up to its closing quote `q`,
/// and the position after that quote.
pub open spec fn scan_value(s: Seq<char>, i: int, q: char) -> Result<(Seq<char>, int), MalfV>
    decreases s.len() - i,
{
    if i < 0 || i >= s.len() {
        Err(MalfV { kind: MalformedKind::UnexpectedEnd, pos: i })
    } else if s[i] == q {
        Ok((Seq::empty(), i + 1))
    } else if s[i] == '&' {
        match find_semi_from(s, i + 1) {
            None => Err(MalfV { kind: MalformedKind::BadEntity, pos: i }),
            Some(k) => match entity_char(s.subrange(i + 1, k)) {
                None => Err(MalfV { kind: MalformedKind::BadEntity, pos: i }),
                Some(c) => match scan_value(s, advance(s, i, k + 1), q) {
                    Err(e) => Err(e),
                    Ok((v, j)) => Ok((seq![c] + v, j)),
                },
            },
        }
    } else {
        match scan_value(s, i + 1, q) {
            Err(e) => Err(e),
            Ok((v, j)) => Ok((seq![s[i]] + v, j)),
        }
    }
}

/// The attribute list of a tag from position `i`, the position after the
/// closing `>`, and whether the tag was self-closing.
pub open spec fn scan_attrs(s: Seq<char>, i: int) -> Result<
    (Seq<(Seq<char>, Seq<char>)>, int, bool),
    MalfV,
>
    decreases s.len() - i,
{
    let j = skip_ws_from(s, i);
    if j < 0 || j >= s.len() {
        Err(MalfV { kind: MalformedKind::UnexpectedEnd, pos: j })
    } else if s[j] == '>' {
        Ok((Seq::empty(), j + 1, false))
    } else if s[j] == '/' {
        if j + 1 < s.len() && s[j + 1] == '>' {
            Ok((Seq::empty(), j + 2, true))
        } else {
            Err(MalfV { kind: MalformedKind::BadMarkup, pos: j })
        }
    } else {
        let ne = name_end_from(s, j);
        if ne == j {
            Err(MalfV { kind: MalformedKind::BadMarkup, pos: j })
        } else {
            let k = skip_ws_from(s, ne);
            if k >= s.len() || s[k] != '=' {
                Err(MalfV { kind: MalformedKind::BadMarkup, pos: j })
            } else {
                let q = skip_ws_from(s, k + 1);
                if q >= s.len() || (s[q] != '"' && s[q] != '\'') {
                    Err(MalfV { kind: MalformedKind::BadMarkup, pos: j })
                } else {
                    match scan_value(s, q + 1, s[q]) {
                        Err(e) => Err(e),
                        Ok((val, m)) => match scan_attrs(s, advance(s, i, m)) {
                            Err(e) => Err(e),
                            Ok((rest, end, sc)) => Ok(
                                (seq![(s.subrange(j, ne), val)] + rest, end, sc),
                            ),
                        },
                    }
                }
            }
        }
    }
}

/// What the reader does at one position: stop, skip non-event text or
/// markup, produce one tag event, or fail.
pub ghost enum StepV {
    Done,
    Skip { next: int },
    Tok { tok: TokV, next: int },
    Fail { err: MalfV },
}

/// One step of the reader from position `i`.
pub open spec fn scan_step(s: Seq<char>, i: int) -> StepV {
    let j = find_lt_from(s, i);
    if j >= s.len() {
        StepV::Done
    } else if j + 3 < s.len() && s[j + 1] == '!' && s[j + 2] == '-' && s[j + 3] == '-' {
        match comment_end_from(s, j + 4) {
            None => StepV::Fail { err: MalfV { kind: MalformedKind::UnexpectedEnd, pos: j } },
            Some(e) => StepV::Skip { next: advance(s, i, e + 3) },
        }
    } else if j + 1 < s.len() && s[j + 1] == '!' {
        match find_gt_from(s, j + 2) {
            None => StepV::Fail { err: MalfV { kind: MalformedKind::UnexpectedEnd, pos: j } },
            Some(g) => StepV::Skip { next: advance(s, i, g + 1) },
        }
    } else if j + 1 < s.len() && s[j + 1] == '?' {
        match pi_end_from(s, j + 2) {
            None => StepV::Fail { err: MalfV { kind: MalformedKind::UnexpectedEnd, pos: j } },
            Some(e) => StepV::Skip { next: advance(s, i, e + 2) },
        }
    } else if j + 1 < s.len() && s[j + 1] == '/' {
        let ne = name_end_from(s, j + 2);
        if ne == j + 2 {
            StepV::Fail { err: MalfV { kind: MalformedKind::BadMarkup, pos: j } }
        } else {
            let k = skip_ws_from(s, ne);
            if k >= s.len() || s[k] != '>' {
                StepV::Fail { err: MalfV { kind: MalformedKind::BadMarkup, pos: j } }
            } else {
                StepV::Tok {
                    tok: TokV::Close { name: s.subrange(j + 2, ne), pos: j },
                    next: advance(s, i, k + 1),
                }
            }
        }
    } else {
        let ne = name_end_from(s, j + 1);
        if ne == j + 1 {
            StepV::Fail { err: MalfV { kind: MalformedKind::BadMarkup, pos: j } }
        } else {
            match scan_attrs(s, ne) {
                Err(e) => StepV::Fail { err: e },
                Ok((attrs, end, sc)) => StepV::Tok {
                    tok: if sc {
                        TokV::SelfClose { name: s.subrange(j + 1, ne), attrs, pos: j }
                    } else {
                        TokV::Open { name: s.subrange(j + 1, ne), attrs, pos: j }
                    },
                    next: advance(s, i, end),
                },
            }
        }
    }
}

/// Every event of the text from position `i` on, or the first failure.
pub open spec fn scan_from(s: Seq<char>, i: int) -> Result<Seq<TokV>, MalfV>
    decreases s.len() - i,
{
    if i < 0 {
        Err(MalfV { kind: MalformedKind::BadMarkup, pos: 0 })
    } else {
        match scan_step(s, i) {
            StepV::Done => Ok(Seq::empty()),
            StepV::Fail { err } => Err(err),
            StepV::Skip { next } => scan_from(s, next),
            StepV::Tok { tok, next } => match scan_from(s, next) {
                Err(e) => Err(e),
                Ok(ts) => Ok(seq![tok] + ts),
            },
        }
    }
}

/// Every event of the whole text, or the first failure.
pub open spec fn xml_scan(s: Seq<char>) -> Result<Seq<TokV>, MalfV> {
    scan_from(s, 0)
}

fn skip_ws_exec(s: &str, n: usize, i: usize) -> (r: usize)
    requires
        n == s@.len(),
        i <= n,
    ensures
        r == skip_ws_from(s@, i as int),
        i <= r <= n,
    decreases n - i,
{
    if i >= n {
        i
    } else {
        let c = s.get_char(i);
        if c == ' ' || c == '\t' || c == '\n' || c == '\r' {
            skip_ws_exec(s, n, i + 1)
        } else {
            i
        }
    }
}

fn name_end_exec(s: &str, n: usize, i: usize) -> (r: usize)
    requires
        n == s@.len(),
        i <= n,
    ensures
        r == name_end_from(s@, i as int),
        i <= r <= n,
    decreases n - i,
{
    if i >= n {
        i
    } else {
        let c = s.get_char(i);
        let ws = c == ' ' || c == '\t' || c == '\n' || c == '\r';
        if !ws && c != '>' && c != '/' && c != '=' && c != '<' && c != '"' && c != '\'' && c != '&' {
            name_end_exec(s, n, i + 1)
        } else {
            i
        }
    }
}

fn find_lt_exec(s: &str, n: usize, i: usize) -> (r: usize)
    requires
        n == s@.len(),
        i <= n,
    ensures
        r == find_lt_from(s@, i as int),
        i <= r <= n,
        r < n ==> s@[r as int] == '<',
    decreases n - i,
{
    if i >= n {
        n
    } else if s.get_char(i) == '<' {
        i
    } else {
        find_lt_exec(s, n, i + 1)
    }
}

fn find_gt_exec(s: &str, n: usize, i: usize) -> (r: Option<usize>)
    requires
        n == s@.len(),
        i <= n,
    ensures
        match r {
            Some(k) => find_gt_from(s@, i as int) == Some(k as int) && i <= k < n,
            None => find_gt_from(s@, i as int) is None,
        },
    decreases n - i,
{
    if i >= n {
        None
    } else if s.get_char(i) == '>' {
        Some(i)
    } else {
        find_gt_exec(s, n, i + 1)
    }
}

fn find_semi_exec(s: &str, n: usize, i: usize) -> (r: Option<usize>)
    requires
        n == s@.len(),
        i <= n,
    ensures
        match r {
            Some(k) => find_semi_from(s@, i as int) == Some(k as int) && i <= k < n,
            None => find_semi_from(s@, i as int) is None,
        },
    decreases n - i,
{
    if i >= n {
        None
    } else if s.get_char(i) == ';' {
        Some(i)
    } else {
        find_semi_exec(s, n, i + 1)
    }
}

fn comment_end_exec(s: &str, n: usize, i: usize) -> (r: Option<usize>)
    requires
        n == s@.len(),
        i <= n,
    ensures
        match r {
            Some(k) => comment_end_from(s@, i as int) == Some(k as int) && i <= k && k + 3 <= n,
            None => comment_end_from(s@, i as int) is None,
        },
    decreases n - i,
{
    if n - i < 3 {
        None
    } else if s.get_char(i) == '-' && s.get_char(i + 1) == '-' && s.get_char(i + 2) == '>' {
        Some(i)
    } else {
        comment_end_exec(s, n, i + 1)
    }
}

fn pi_end_exec(s: &str, n: usize, i: usize) -> (r: Option<usize>)
    requires
        n == s@.len(),
        i <= n,
    ensures
        match r {
            Some(k) => pi_end_from(s@, i as int) == Some(k as int) && i <= k && k + 2 <= n,
            None => pi_end_from(s@, i as int) is None,
        },
    decreases n - i,
{
    if n - i < 2 {
        None
    } else if s.get_char(i) == '?' && s.get_char(i + 1) == '>' {
        Some(i)
    } else {
        pi_end_exec(s, n, i + 1)
    }
}

fn entity_str_exec(name: &str) -> (r: Option<&'static str>)
    ensures
        match r {
            Some(t) => entity_char(name@) matches Some(c) && t@ =~= seq![c],
            None => entity_char(name@) is None,
        },
{
    let r: Option<&'static str> = if str_eq(name, "amp") {
        Some("&")
    } else if str_eq(name, "lt") {
        Some("<")
    } else if str_eq(name, "gt") {
        Some(">")
    } else if str_eq(name, "quot") {
        Some("\"")
    } else if str_eq(name, "apos") {
        Some("'")
    } else {
        None
    };
    proof {
        reveal_strlit("&");
        reveal_strlit("<");
        reveal_strlit(">");
        reveal_strlit("\"");
        reveal_strlit("'");
        if r is Some {
            assert(r->0@ =~= seq![entity_char(name@)->0]);
        }
    }
    r
}

fn scan_value_exec(s: &str, n: usize, start: usize, q: char) -> (r: Result<
    (String, usize),
    (MalformedKind, usize),
>)
    requires
        n == s@.len(),
        start <= n,
    ensures
        match r {
            Ok(p) => scan_value(s@, start as int, q) == Ok::<(Seq<char>, int), MalfV>(
                (p.0@, p.1 as int),
            ) && start < p.1 <= n,
            Err(f) => scan_value(s@, start as int, q) == Err::<(Seq<char>, int), MalfV>(
                MalfV { kind: f.0, pos: f.1 as int },
            ),
        },
{
    let mut acc = String::new();
    let mut run = start;
    let mut i = start;
    loop
        invariant
            n == s@.len(),
            start <= run <= i <= n,
            scan_value(s@, start as int, q) == (match scan_value(s@, i as int, q) {
                Ok(p) => Ok::<(Seq<char>, int), MalfV>(
                    (acc@ + s@.subrange(run as int, i as int) + p.0, p.1),
                ),
                Err(e) => Err::<(Seq<char>, int), MalfV>(e),
            }),
        decreases n - i,
    {
        if i >= n {
            return Err((MalformedKind::UnexpectedEnd, i));
        }
        let c = s.get_char(i);
        if c == q {
            let mut out = acc;
            out.append(s.substring_char(run, i));
            proof {
                assert(out@ + Seq::<char>::empty() =~= out@);
            }
            return Ok((out, i + 1));
        }
        if c == '&' {
            match find_semi_exec(s, n, i + 1) {
                None => {
                    return Err((MalformedKind::BadEntity, i));
                },
                Some(k) => {
                    let name = s.substring_char(i + 1, k);
                    match entity_str_exec(name) {
                        None => {
                            return Err((MalformedKind::BadEntity, i));
                        },
                        Some(t) => {
                            let ghost acc0 = acc@;
                            let ghost ch = entity_char(s@.subrange(i + 1, k as int))->0;
                            acc.append(s.substring_char(run, i));
                            acc.append(t);
                            proof {
                                assert(advance(s@, i as int, k + 1) == k + 1);
                                assert(acc@ =~= acc0 + s@.subrange(run as int, i as int)
                                    + seq![ch]);
                                if scan_value(s@, k + 1, q) is Ok {
                                    let p = scan_value(s@, k + 1, q)->Ok_0;
                                    assert(s@.subrange(k + 1, k + 1) =~= Seq::<char>::empty());
                                    assert(acc0 + s@.subrange(run as int, i as int) + (seq![ch]
                                        + p.0) =~= acc@ + s@.subrange(k + 1, k + 1) + p.0);
                                }
                            }
                            i = k + 1;
                            run = i;
                        },
                    }
                },
            }
        } else {
            proof {
                if scan_value(s@, i + 1, q) is Ok {
                    let p = scan_value(s@, i + 1, q)->Ok_0;
                    assert(s@.subrange(run as int, i + 1) =~= s@.subrange(run as int, i as int)
                        + seq![s@[i as int]]);
                    assert(acc@ + s@.subrange(run as int, i as int) + (seq![s@[i as int]] + p.0)
                        =~= acc@ + s@.subrange(run as int, i + 1) + p.0);
                }
            }
            i = i + 1;
        }
    }
}

fn scan_attrs_exec(s: &str, n: usize, i: usize) -> (r: Result<
    (Vec<(String, String)>, usize, bool),
    (MalformedKind, usize),
>)
    requires
        n == s@.len(),
        i <= n,
    ensures
        match r {
            Ok(t) => scan_attrs(s@, i as int) == Ok::<(Seq<(Seq<char>, Seq<char>)>, int, bool), MalfV>(
                (attrs_view(t.0@), t.1 as int, t.2),
            ) && i < t.1 <= n,
            Err(f) => scan_attrs(s@, i as int) == Err::<
                (Seq<(Seq<char>, Seq<char>)>, int, bool),
                MalfV,
            >(MalfV { kind: f.0, pos: f.1 as int }),
        },
    decreases n - i,
{
    let j = skip_ws_exec(s, n, i);
    if j >= n {
        return Err((MalformedKind::UnexpectedEnd, j));
    }
    let cj = s.get_char(j);
    if cj == '>' {
        proof {
            assert(attrs_view(Seq::<(String, String)>::empty()) =~= Seq::<
                (Seq<char>, Seq<char>),
            >::empty());
        }
        Ok((Vec::new(), j + 1, false))
    } else if cj == '/' {
        if n - j > 1 && s.get_char(j + 1) == '>' {
            proof {
                assert(attrs_view(Seq::<(String, String)>::empty()) =~= Seq::<
                    (Seq<char>, Seq<char>),
                >::empty());
            }
            Ok((Vec::new(), j + 2, true))
        } else {
            Err((MalformedKind::BadMarkup, j))
        }
    } else {
        let ne = name_end_exec(s, n, j);
        if ne == j {
            return Err((MalformedKind::BadMarkup, j));
        }
        let k = skip_ws_exec(s, n, ne);
        if k >= n || s.get_char(k) != '=' {
            return Err((MalformedKind::BadMarkup, j));
        }
        let q = skip_ws_exec(s, n, k + 1);
        if q >= n {
            return Err((MalformedKind::BadMarkup, j));
        }
        let quote = s.get_char(q);
        if quote != '"' && quote != '\'' {
            return Err((MalformedKind::BadMarkup, j));
        }
        match scan_value_exec(s, n, q + 1, quote) {
            Err(f) => Err(f),
            Ok((val, m)) => {
                let nx = if i < m && m <= n {
                    m
                } else if i < n {
                    i + 1
                } else {
                    n
                };
                proof {
                    assert(nx as int == advance(s@, i as int, m as int));
                }
                match scan_attrs_exec(s, n, nx) {
                    Err(f) => Err(f),
                    Ok((rest, end, sc)) => {
                        let name = s.substring_char(j, ne).to_owned();
                        let ghost rest0 = rest@;
                        let mut rest = rest;
                        rest.insert(0, (name, val));
                        proof {
                            assert(attrs_view(rest@) =~= seq![
                                (s@.subrange(j as int, ne as int), val@),
                            ] + attrs_view(rest0));
                        }
                        Ok((rest, end, sc))
                    },
                }
            },
        }
    }
}

enum Step {
    Done,
    Skip(usize),
    Tok(XmlToken, usize),
    Fail(MalformedKind, usize),
}

fn scan_step_exec(s: &str, n: usize, i: usize) -> (r: Step)
    requires
        n == s@.len(),
        i <= n,
    ensures
        match r {
            Step::Done => scan_step(s@, i as int) == StepV::Done,
            Step::Skip(nx) => scan_step(s@, i as int) == (StepV::Skip { next: nx as int }) && i < nx
                <= n,
            Step::Tok(t, nx) => scan_step(s@, i as int) == (StepV::Tok {
                tok: t@,
                next: nx as int,
            }) && i < nx <= n,
            Step::Fail(k, p) => scan_step(s@, i as int) == (StepV::Fail {
                err: MalfV { kind: k, pos: p as int },
            }),
        },
{
    let j = find_lt_exec(s, n, i);
    if j >= n {
        return Step::Done;
    }
    if n - j > 3 && s.get_char(j + 1) == '!' && s.get_char(j + 2) == '-' && s.get_char(j + 3)
        == '-' {
        match comment_end_exec(s, n, j + 4) {
            None => Step::Fail(MalformedKind::UnexpectedEnd, j),
            Some(e) => {
                proof {
                    assert(advance(s@, i as int, e + 3) == e + 3);
                }
                Step::Skip(e + 3)
            },
        }
    } else if n - j > 1 && s.get_char(j + 1) == '!' {
        match find_gt_exec(s, n, j + 2) {
            None => Step::Fail(MalformedKind::UnexpectedEnd, j),
            Some(g) => {
                proof {
                    assert(advance(s@, i as int, g + 1) == g + 1);
                }
                Step::Skip(g + 1)
            },
        }
    } else if n - j > 1 && s.get_char(j + 1) == '?' {
        match pi_end_exec(s, n, j + 2) {
            None => Step::Fail(MalformedKind::UnexpectedEnd, j),
            Some(e) => {
                proof {
                    assert(advance(s@, i as int, e + 2) == e + 2);
                }
                Step::Skip(e + 2)
            },
        }
    } else if n - j > 1 && s.get_char(j + 1) == '/' {
        let ne = name_end_exec(s, n, j + 2);
        if ne == j + 2 {
            Step::Fail(MalformedKind::BadMarkup, j)
        } else {
            let k = skip_ws_exec(s, n, ne);
            if k >= n || s.get_char(k) != '>' {
                Step::Fail(MalformedKind::BadMarkup, j)
            } else {
                let name = s.substring_char(j + 2, ne).to_owned();
                proof {
                    assert(advance(s@, i as int, k + 1) == k + 1);
                }
                Step::Tok(XmlToken::Close { name, pos: j }, k + 1)
            }
        }
    } else {
        let ne = name_end_exec(s, n, j + 1);
        if ne == j + 1 {
            Step::Fail(MalformedKind::BadMarkup, j)
        } else {
            match scan_attrs_exec(s, n, ne) {
                Err((k, p)) => Step::Fail(k, p),
                Ok((attrs, end, sc)) => {
                    let name = s.substring_char(j + 1, ne).to_owned();
                    proof {
                        assert(advance(s@, i as int, end as int) == end as int);
                    }
                    if sc {
                        Step::Tok(XmlToken::SelfClose { name, attrs, pos: j }, end)
                    } else {
                        Step::Tok(XmlToken::Open { name, attrs, pos: j }, end)
                    }
                },
            }
        }
    }
}

fn scan_from_exec(s: &str, n: usize, i: usize) -> (r: Result<Vec<XmlToken>, (MalformedKind, usize)>)
    requires
        n == s@.len(),
        i <= n,
    ensures
        match r {
            Ok(v) => scan_from(s@, i as int) == Ok::<Seq<TokV>, MalfV>(toks_view(v@)),
            Err(f) => scan_from(s@, i as int) == Err::<Seq<TokV>, MalfV>(
                MalfV { kind: f.0, pos: f.1 as int },
            ),
        },
    decreases n - i,
{
    match scan_step_exec(s, n, i) {
        Step::Done => {
            proof {
                assert(toks_view(Seq::<XmlToken>::empty()) =~= Seq::<TokV>::empty());
            }
            Ok(Vec::new())
        },
        Step::Fail(k, p) => Err((k, p)),
        Step::Skip(nx) => scan_from_exec(s, n, nx),
        Step::Tok(t, nx) => {
            match scan_from_exec(s, n, nx) {
                Err(f) => Err(f),
                Ok(rest) => {
                    let ghost rest0 = rest@;
                    let mut rest = rest;
                    rest.insert(0, t);
                    proof {
                        assert(toks_view(rest@) =~= seq![t@] + toks_view(rest0));
                    }
                    Ok(rest)
                },
            }
        },
    }
}

/// Reads every tag event of `s`, exactly as `xml_scan` describes it.
pub fn scan_xml(s: &str) -> (r: Result<Vec<XmlToken>, DecodeError>)
    ensures
        match r {
            Ok(v) => xml_scan(s@) == Ok::<Seq<TokV>, MalfV>(toks_view(v@)),
            Err(e) => xml_scan(s@) matches Err(m) && e@ == (DecodeErrorV::MalformedDocument {
                kind: m.kind,
                offset: Some(m.pos),
            }),
        },
{
    let n = s.unicode_len();
    match scan_from_exec(s, n, 0) {
        Ok(v) => Ok(v),
        Err((k, p)) => Err(DecodeError::MalformedDocument { kind: k, offset: Some(p) }),
    }
}

} // verus!
