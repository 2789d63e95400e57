//! The reader: S-expressions of integers, characters, symbols, booleans and lists.
//!
//! The grammar, tried in this order at each expression:
//! - integer: one or more ASCII digits whose value fits in an `i64`;
//! - character: `'c'` with `c` an ASCII letter or digit, or `'\n'`, `'\r'`, `'\t'`, `'\\'`,
//!   `'\''`, `'\"'`;
//! - symbol: an ASCII letter or digit or one of `+-!$%&*/:<=>?^_~`, then as many ASCII letters,
//!   digits and `!$%&*/:<=>?^_~` as follow;
//! - boolean: `#t` or `#f`;
//! - list: `(`, optional white space, expressions separated by white space, optional white
//!   space, `)`.
//! White space is space, tab, carriage return and line feed. An expression that consumes no
//! input is never accepted.
use vstd::prelude::*;
use crate::text::push_char;

verus! {

/// A parsed Lisp value.
#[derive(Debug, PartialEq)]
pub enum LispVal {
    Integer(i64),
    Character(char),
    Bool(bool),
    Symbol(String),
    List(Vec<LispVal>),
}

/// The mathematical value of a `LispVal`.
pub ghost enum SExpr {
    Integer(i64),
    Character(char),
    Bool(bool),
    Symbol(Seq<char>),
    List(Seq<SExpr>),
}

impl LispVal {
    pub open spec fn model(self) -> SExpr
        decreases self,
    {
        match self {
            LispVal::Integer(i) => SExpr::Integer(i),
            LispVal::Character(c) => SExpr::Character(c),
            LispVal::Bool(b) => SExpr::Bool(b),
            LispVal::Symbol(s) => SExpr::Symbol(s@),
            LispVal::List(items) => SExpr::List(model_seq(items@)),
        }
    }
}

/// The values of a sequence of `LispVal`s.
pub open spec fn model_seq(items: Seq<LispVal>) -> Seq<SExpr>
    decreases items,
{
    if items.len() == 0 {
        seq![]
    } else {
        seq![items[0].model()] + model_seq(items.subrange(1, items.len() as int))
    }
}

pub open spec fn is_digit(c: char) -> bool {
    '0' <= c && c <= '9'
}

pub open spec fn is_alnum(c: char) -> bool {
    ('a' <= c && c <= 'z') || ('A' <= c && c <= 'Z') || is_digit(c)
}

pub open spec fn is_space(c: char) -> bool {
    c == ' ' || c == '\t' || c == '\r' || c == '\n'
}

/// Punctuation that may continue a symbol.
pub open spec fn is_symbol_punct(c: char) -> bool {
    c == '!' || c == '$' || c == '%' || c == '&' || c == '*' || c == '/' || c == ':' || c == '<'
        || c == '=' || c == '>' || c == '?' || c == '^' || c == '_' || c == '~'
}

/// A character that may start a symbol.
pub open spec fn is_symbol_start(c: char) -> bool {
    is_alnum(c) || is_symbol_punct(c) || c == '+' || c == '-'
}

/// A character that may continue a symbol.
pub open spec fn is_symbol_rest(c: char) -> bool {
    is_alnum(c) || is_symbol_punct(c)
}

/// The character an escape `\c` stands for.
pub open spec fn escaped(c: char) -> Option<char> {
    if c == 'n' {
        Some('\n')
    } else if c == 'r' {
        Some('\r')
    } else if c == 't' {
        Some('\t')
    } else if c == '\\' {
        Some('\\')
    } else if c == '\'' {
        Some('\'')
    } else if c == '"' {
        Some('"')
    } else {
        None
    }
}

/// Number of leading white-space characters of `s`.
pub open spec fn space_len(s: Seq<char>) -> nat
    decreases s.len(),
{
    if s.len() > 0 && is_space(s[0]) {
        1 + space_len(s.drop_first())
    } else {
        0
    }
}

/// Number of leading digits of `s`.
pub open spec fn digit_len(s: Seq<char>) -> nat
    decreases s.len(),
{
    if s.len() > 0 && is_digit(s[0]) {
        1 + digit_len(s.drop_first())
    } else {
        0
    }
}

/// Number of leading symbol-continuing characters of `s`.
pub open spec fn symbol_rest_len(s: Seq<char>) -> nat
    decreases s.len(),
{
    if s.len() > 0 && is_symbol_rest(s[0]) {
        1 + symbol_rest_len(s.drop_first())
    } else {
        0
    }
}

/// The decimal value of a string of digits.
pub open spec fn decimal_value(d: Seq<char>) -> nat
    decreases d.len(),
{
    if d.len() == 0 {
        0
    } else {
        decimal_value(d.drop_last()) * 10 + (d.last() as nat - '0' as nat) as nat
    }
}

/// `s` without its leading white space.
pub open spec fn skip_space(s: Seq<char>) -> Seq<char> {
    s.skip(space_len(s) as int)
}

/// An integer: the leading digits, when there are some and their value fits in an `i64`.
pub open spec fn parse_integer(s: Seq<char>) -> Option<(Seq<char>, SExpr)> {
    let n = digit_len(s);
    let v = decimal_value(s.take(n as int));
    if n > 0 && v <= i64::MAX {
        Some((s.skip(n as int), SExpr::Integer(v as i64)))
    } else {
        None
    }
}

/// A character literal.
pub open spec fn parse_character(s: Seq<char>) -> Option<(Seq<char>, SExpr)> {
    if s.len() >= 3 && s[0] == '\'' {
        if s[1] == '\\' {
            if s.len() >= 4 && escaped(s[2]) is Some && s[3] == '\'' {
                Some((s.skip(4), SExpr::Character(escaped(s[2])->0)))
            } else {
                None
            }
        } else if is_alnum(s[1]) && s[2] == '\'' {
            Some((s.skip(3), SExpr::Character(s[1])))
        } else {
            None
        }
    } else {
        None
    }
}

/// A symbol.
pub open spec fn parse_symbol(s: Seq<char>) -> Option<(Seq<char>, SExpr)> {
    if s.len() > 0 && is_symbol_start(s[0]) {
        let n = 1 + symbol_rest_len(s.drop_first()) as int;
        Some((s.skip(n), SExpr::Symbol(s.take(n))))
    } else {
        None
    }
}

/// A boolean.
pub open spec fn parse_bool(s: Seq<char>) -> Option<(Seq<char>, SExpr)> {
    if s.len() >= 2 && s[0] == '#' && s[1] == 't' {
        Some((s.skip(2), SExpr::Bool(true)))
    } else if s.len() >= 2 && s[0] == '#' && s[1] == 'f' {
        Some((s.skip(2), SExpr::Bool(false)))
    } else {
        None
    }
}

/// An expression at the start of `s`, and the input that follows it.
pub open spec fn parse_expr(s: Seq<char>) -> Option<(Seq<char>, SExpr)>
    decreases s.len(), 3nat,
{
    if parse_integer(s) is Some {
        parse_integer(s)
    } else if parse_character(s) is Some {
        parse_character(s)
    } else if parse_symbol(s) is Some {
        parse_symbol(s)
    } else if parse_bool(s) is Some {
        parse_bool(s)
    } else {
        parse_list(s)
    }
}

/// A parenthesized list.
pub open spec fn parse_list(s: Seq<char>) -> Option<(Seq<char>, SExpr)>
    decreases s.len(), 2nat,
{
    if s.len() > 0 && s[0] == '(' {
        let t = skip_space(s.drop_first());
        if t.len() < s.len() {
            let (u, items) = parse_items(t);
            let v = skip_space(u);
            if v.len() > 0 && v[0] == ')' {
                Some((v.drop_first(), SExpr::List(items)))
            } else {
                None
            }
        } else {
            None
        }
    } else {
        None
    }
}

/// Expressions separated by white space (possibly none), and the input after the last one.
pub open spec fn parse_items(t: Seq<char>) -> (Seq<char>, Seq<SExpr>)
    decreases t.len(), 4nat,
{
    match parse_expr(t) {
        Some((u, e)) => if u.len() < t.len() {
            let (v, rest) = parse_more_items(u);
            (v, seq![e] + rest)
        } else {
            (t, seq![])
        },
        None => (t, seq![]),
    }
}

/// Further items, each preceded by white space; a separator without an expression after it
/// is left unconsumed.
pub open spec fn parse_more_items(u: Seq<char>) -> (Seq<char>, Seq<SExpr>)
    decreases u.len(), 0nat,
{
    let w = skip_space(u);
    if w.len() < u.len() {
        match parse_expr(w) {
            Some((x, e)) => if x.len() < w.len() {
                let (y, rest) = parse_more_items(x);
                (y, seq![e] + rest)
            } else {
                (u, seq![])
            },
            None => (u, seq![]),
        }
    } else {
        (u, seq![])
    }
}

proof fn lemma_skip_step(s: Seq<char>, i: int)
    requires
        0 <= i < s.len(),
    ensures
        s.skip(i).drop_first() == s.skip(i + 1),
        s.skip(i)[0] == s[i],
        s.skip(i).len() > 0,
{
    assert(s.skip(i).drop_first() =~= s.skip(i + 1));
}

proof fn lemma_skip_skip(s: Seq<char>, i: int, j: int)
    requires
        0 <= i <= s.len(),
        0 <= j <= s.len() - i,
    ensures
        s.skip(i).skip(j) == s.skip(i + j),
{
    assert(s.skip(i).skip(j) =~= s.skip(i + j));
}

fn is_digit_char(c: char) -> (r: bool)
    ensures
        r == is_digit(c),
{
    '0' <= c && c <= '9'
}

fn is_alnum_char(c: char) -> (r: bool)
    ensures
        r == is_alnum(c),
{
    ('a' <= c && c <= 'z') || ('A' <= c && c <= 'Z') || ('0' <= c && c <= '9')
}

fn is_space_char(c: char) -> (r: bool)
    ensures
        r == is_space(c),
{
    c == ' ' || c == '\t' || c == '\r' || c == '\n'
}

fn is_symbol_punct_char(c: char) -> (r: bool)
    ensures
        r == is_symbol_punct(c),
{
    match c {
        '!' | '$' | '%' | '&' | '*' | '/' | ':' | '<' | '=' | '>' | '?' | '^' | '_' | '~' => true,
        _ => false,
    }
}

fn escaped_char(c: char) -> (r: Option<char>)
    ensures
        r == escaped(c),
{
    match c {
        'n' => Some('\n'),
        'r' => Some('\r'),
        't' => Some('\t'),
        '\\' => Some('\\'),
        '\'' => Some('\''),
        '"' => Some('"'),
        _ => None,
    }
}

/// The position after the white space that starts at `pos`.
fn space_end(chars: &Vec<char>, pos: usize) -> (e: usize)
    requires
        pos <= chars.len(),
    ensures
        e == pos + space_len(chars@.skip(pos as int)),
        e <= chars.len(),
{
    let mut e = pos;
    while e < chars.len() && is_space_char(chars[e])
        invariant
            pos <= e <= chars.len(),
            space_len(chars@.skip(pos as int)) == (e - pos) + space_len(chars@.skip(e as int)),
        decreases chars.len() - e,
    {
        proof {
            lemma_skip_step(chars@, e as int);
        }
        e = e + 1;
    }
    proof {
        if e < chars.len() {
            lemma_skip_step(chars@, e as int);
        }
    }
    e
}

/// The position after the digits that start at `pos`.
fn digit_end(chars: &Vec<char>, pos: usize) -> (e: usize)
    requires
        pos <= chars.len(),
    ensures
        e == pos + digit_len(chars@.skip(pos as int)),
        e <= chars.len(),
{
    let mut e = pos;
    while e < chars.len() && is_digit_char(chars[e])
        invariant
            pos <= e <= chars.len(),
            digit_len(chars@.skip(pos as int)) == (e - pos) + digit_len(chars@.skip(e as int)),
        decreases chars.len() - e,
    {
        proof {
            lemma_skip_step(chars@, e as int);
        }
        e = e + 1;
    }
    proof {
        if e < chars.len() {
            lemma_skip_step(chars@, e as int);
        }
    }
    e
}

/// The position after the symbol-continuing characters that start at `pos`.
fn symbol_rest_end(chars: &Vec<char>, pos: usize) -> (e: usize)
    requires
        pos <= chars.len(),
    ensures
        e == pos + symbol_rest_len(chars@.skip(pos as int)),
        e <= chars.len(),
{
    let mut e = pos;
    while e < chars.len() && (is_alnum_char(chars[e]) || is_symbol_punct_char(chars[e]))
        invariant
            pos <= e <= chars.len(),
            symbol_rest_len(chars@.skip(pos as int)) == (e - pos) + symbol_rest_len(chars@.skip(e as int)),
        decreases chars.len() - e,
    {
        proof {
            lemma_skip_step(chars@, e as int);
        }
        e = e + 1;
    }
    proof {
        if e < chars.len() {
            lemma_skip_step(chars@, e as int);
        }
    }
    e
}

/// The decimal value of a prefix is at most that of the whole string.
proof fn lemma_decimal_prefix_le(d: Seq<char>, k: int)
    requires
        0 <= k <= d.len(),
    ensures
        decimal_value(d.take(k)) <= decimal_value(d),
    decreases d.len(),
{
    if k < d.len() {
        assert(d.take(k) =~= d.drop_last().take(k));
        lemma_decimal_prefix_le(d.drop_last(), k);
    } else {
        assert(d.take(k) =~= d);
    }
}

/// The value of the digits from `pos` to `end`, or `None` when it exceeds `i64::MAX`.
fn digits_value(chars: &Vec<char>, pos: usize, end: usize) -> (r: Option<i64>)
    requires
        pos <= end <= chars.len(),
        forall|k: int| pos <= k < end ==> is_digit(#[trigger] chars@[k]),
    ensures
        r matches Some(v) ==> v as int == decimal_value(chars@.subrange(pos as int, end as int)),
        r is None <==> decimal_value(chars@.subrange(pos as int, end as int)) > i64::MAX,
{
    let mut acc: u64 = 0;
    let mut j = pos;
    while j < end
        invariant
            pos <= j <= end <= chars.len(),
            acc == decimal_value(chars@.subrange(pos as int, j as int)),
            acc <= i64::MAX,
            forall|k: int| pos <= k < end ==> is_digit(#[trigger] chars@[k]),
        decreases end - j,
    {
        let ghost prev = chars@.subrange(pos as int, j as int);
        let ghost next_digits = chars@.subrange(pos as int, j + 1);
        assert(next_digits.drop_last() =~= prev);
        assert(chars@.subrange(pos as int, end as int).take(j + 1 - pos) =~= next_digits);
        proof {
            lemma_decimal_prefix_le(chars@.subrange(pos as int, end as int), j + 1 - pos);
        }
        let c = chars[j];
        assert(is_digit(chars@[j as int]));
        let digit = (c as u32 - '0' as u32) as u64;
        match acc.checked_mul(10) {
            Some(m) => match m.checked_add(digit) {
                Some(v) => {
                    if v > 0x7fff_ffff_ffff_ffffu64 {
                        return None;
                    }
                    acc = v;
                },
                None => {
                    return None;
                },
            },
            None => {
                return None;
            },
        }
        j = j + 1;
    }
    Some(acc as i64)
}

/// What a parser at `pos` promises: on success, an end after `pos` and the value and remaining
/// input that the grammar gives; on failure, that the grammar fails.
pub open spec fn parsed_as(
    chars: Seq<char>,
    pos: usize,
    r: Option<(usize, LispVal)>,
    spec_result: Option<(Seq<char>, SExpr)>,
) -> bool {
    match r {
        Some((k, v)) => pos < k <= chars.len() && spec_result == Some((chars.skip(k as int), v.model())),
        None => spec_result is None,
    }
}

fn parse_integer_at(chars: &Vec<char>, pos: usize) -> (r: Option<(usize, LispVal)>)
    requires
        pos <= chars.len(),
    ensures
        parsed_as(chars@, pos, r, parse_integer(chars@.skip(pos as int))),
{
    let end = digit_end(chars, pos);
    let ghost s = chars@.skip(pos as int);
    let ghost n = digit_len(s);
    if end == pos {
        return None;
    }
    proof {
        lemma_digit_len_bound(s);
        assert forall|k: int| pos <= k < end implies is_digit(#[trigger] chars@[k]) by {
            lemma_digits_prefix(s, k - pos);
        }
        assert(s.take(n as int) =~= chars@.subrange(pos as int, end as int));
        lemma_skip_skip(chars@, pos as int, n as int);
    }
    match digits_value(chars, pos, end) {
        Some(v) => {
            assert(decimal_value(s.take(n as int)) == v as int);
            assert(s.skip(n as int) == chars@.skip(end as int));
            Some((end, LispVal::Integer(v)))
        },
        None => None,
    }
}

/// The first `digit_len(s)` characters of `s` are digits.
proof fn lemma_digits_prefix(s: Seq<char>, k: int)
    requires
        0 <= k < digit_len(s),
    ensures
        k < s.len(),
        is_digit(s[k]),
    decreases s.len(),
{
    if k > 0 {
        lemma_digits_prefix(s.drop_first(), k - 1);
    }
}

proof fn lemma_digit_len_bound(s: Seq<char>)
    ensures
        digit_len(s) <= s.len(),
    decreases s.len(),
{
    if s.len() > 0 {
        lemma_digit_len_bound(s.drop_first());
    }
}

fn parse_character_at(chars: &Vec<char>, pos: usize) -> (r: Option<(usize, LispVal)>)
    requires
        pos <= chars.len(),
    ensures
        parsed_as(chars@, pos, r, parse_character(chars@.skip(pos as int))),
{
    let ghost s = chars@.skip(pos as int);
    if chars.len() - pos >= 3 && chars[pos] == '\'' {
        assert(s[0] == chars@[pos as int] && s[1] == chars@[pos + 1] && s[2] == chars@[pos + 2]);
        if chars[pos + 1] == '\\' {
            if chars.len() - pos >= 4 {
                assert(s[3] == chars@[pos + 3]);
                match escaped_char(chars[pos + 2]) {
                    Some(c) => {
                        if chars[pos + 3] == '\'' {
                            proof {
                                lemma_skip_skip(chars@, pos as int, 4);
                            }
                            return Some((pos + 4, LispVal::Character(c)));
                        }
                    },
                    None => {},
                }
            }
            None
        } else if is_alnum_char(chars[pos + 1]) && chars[pos + 2] == '\'' {
            proof {
                lemma_skip_skip(chars@, pos as int, 3);
            }
            Some((pos + 3, LispVal::Character(chars[pos + 1])))
        } else {
            None
        }
    } else {
        None
    }
}

/// The characters from `pos` to `end` as a `String`.
fn string_of(chars: &Vec<char>, pos: usize, end: usize) -> (s: String)
    requires
        pos <= end <= chars.len(),
    ensures
        s@ == chars@.subrange(pos as int, end as int),
{
    let mut s = String::new();
    let mut j = pos;
    while j < end
        invariant
            pos <= j <= end <= chars.len(),
            s@ == chars@.subrange(pos as int, j as int),
        decreases end - j,
    {
        push_char(&mut s, chars[j]);
        assert(s@ =~= chars@.subrange(pos as int, j + 1));
        j = j + 1;
    }
    s
}

fn parse_symbol_at(chars: &Vec<char>, pos: usize) -> (r: Option<(usize, LispVal)>)
    requires
        pos <= chars.len(),
    ensures
        parsed_as(chars@, pos, r, parse_symbol(chars@.skip(pos as int))),
{
    let ghost s = chars@.skip(pos as int);
    if pos < chars.len() {
        let c = chars[pos];
        assert(s[0] == c);
        if is_alnum_char(c) || is_symbol_punct_char(c) || c == '+' || c == '-' {
            let end = symbol_rest_end(chars, pos + 1);
            proof {
                lemma_skip_step(chars@, pos as int);
                let n = 1 + symbol_rest_len(s.drop_first()) as int;
                assert(end == pos + n);
                lemma_skip_skip(chars@, pos as int, n);
                assert(s.take(n) =~= chars@.subrange(pos as int, end as int));
            }
            let name = string_of(chars, pos, end);
            return Some((end, LispVal::Symbol(name)));
        }
    }
    None
}

fn parse_bool_at(chars: &Vec<char>, pos: usize) -> (r: Option<(usize, LispVal)>)
    requires
        pos <= chars.len(),
    ensures
        parsed_as(chars@, pos, r, parse_bool(chars@.skip(pos as int))),
{
    let ghost s = chars@.skip(pos as int);
    if chars.len() - pos >= 2 && chars[pos] == '#' {
        assert(s[0] == chars@[pos as int] && s[1] == chars@[pos + 1]);
        proof {
            lemma_skip_skip(chars@, pos as int, 2);
        }
        if chars[pos + 1] == 't' {
            return Some((pos + 2, LispVal::Bool(true)));
        } else if chars[pos + 1] == 'f' {
            return Some((pos + 2, LispVal::Bool(false)));
        }
    }
    None
}

proof fn lemma_model_seq_cons(e: LispVal, rest: Seq<LispVal>)
    ensures
        model_seq(seq![e] + rest) == seq![e.model()] + model_seq(rest),
{
    let all = seq![e] + rest;
    assert(all[0] == e);
    assert(all.subrange(1, all.len() as int) =~= rest);
}

/// `skip_space` of the input at `p` is the input at `space_end(p)`.
proof fn lemma_skip_space_at(chars: Seq<char>, p: int, e: int)
    requires
        0 <= p <= chars.len(),
        e == p + space_len(chars.skip(p)),
        e <= chars.len(),
    ensures
        skip_space(chars.skip(p)) == chars.skip(e),
{
    lemma_skip_skip(chars, p, e - p);
}

fn parse_expr_at(chars: &Vec<char>, pos: usize) -> (r: Option<(usize, LispVal)>)
    requires
        pos <= chars.len(),
    ensures
        parsed_as(chars@, pos, r, parse_expr(chars@.skip(pos as int))),
    decreases chars.len() - pos, 3nat,
{
    let r = parse_integer_at(chars, pos);
    if r.is_some() {
        return r;
    }
    let r = parse_character_at(chars, pos);
    if r.is_some() {
        return r;
    }
    let r = parse_symbol_at(chars, pos);
    if r.is_some() {
        return r;
    }
    let r = parse_bool_at(chars, pos);
    if r.is_some() {
        return r;
    }
    parse_list_at(chars, pos)
}

fn parse_list_at(chars: &Vec<char>, pos: usize) -> (r: Option<(usize, LispVal)>)
    requires
        pos <= chars.len(),
    ensures
        parsed_as(chars@, pos, r, parse_list(chars@.skip(pos as int))),
    decreases chars.len() - pos, 2nat,
{
    let ghost s = chars@.skip(pos as int);
    if pos < chars.len() && chars[pos] == '(' {
        proof {
            lemma_skip_step(chars@, pos as int);
        }
        let t = space_end(chars, pos + 1);
        proof {
            lemma_skip_space_at(chars@, pos + 1, t as int);
        }
        let (u, items) = parse_items_at(chars, t);
        let v = space_end(chars, u);
        proof {
            lemma_skip_space_at(chars@, u as int, v as int);
        }
        if v < chars.len() && chars[v] == ')' {
            proof {
                lemma_skip_step(chars@, v as int);
            }
            Some((v + 1, LispVal::List(items)))
        } else {
            proof {
                if v < chars.len() {
                    lemma_skip_step(chars@, v as int);
                }
            }
            None
        }
    } else {
        proof {
            if pos < chars.len() {
                lemma_skip_step(chars@, pos as int);
            }
        }
        None
    }
}

fn parse_items_at(chars: &Vec<char>, t: usize) -> (r: (usize, Vec<LispVal>))
    requires
        t <= chars.len(),
    ensures
        t <= r.0 <= chars.len(),
        parse_items(chars@.skip(t as int)) == (chars@.skip(r.0 as int), model_seq(r.1@)),
    decreases chars.len() - t, 4nat,
{
    match parse_expr_at(chars, t) {
        Some((u, e)) => {
            let (v, mut rest) = parse_more_items_at(chars, u);
            let ghost rest_v = rest@;
            let ghost e_v = e;
            let mut items: Vec<LispVal> = Vec::new();
            items.push(e);
            items.append(&mut rest);
            proof {
                assert(items@ =~= seq![e_v] + rest_v);
                lemma_model_seq_cons(e_v, rest_v);
                let tt = chars@.skip(t as int);
                assert(parse_expr(tt) == Some((chars@.skip(u as int), e_v.model())));
                assert(chars@.skip(u as int).len() < tt.len());
            }
            (v, items)
        },
        None => {
            assert(model_seq(Seq::<LispVal>::empty()) =~= Seq::<SExpr>::empty());
            (t, Vec::new())
        },
    }
}

fn parse_more_items_at(chars: &Vec<char>, u: usize) -> (r: (usize, Vec<LispVal>))
    requires
        u <= chars.len(),
    ensures
        u <= r.0 <= chars.len(),
        parse_more_items(chars@.skip(u as int)) == (chars@.skip(r.0 as int), model_seq(r.1@)),
    decreases chars.len() - u, 0nat,
{
    let w = space_end(chars, u);
    proof {
        lemma_skip_space_at(chars@, u as int, w as int);
        assert(model_seq(Seq::<LispVal>::empty()) =~= Seq::<SExpr>::empty());
    }
    if w > u {
        match parse_expr_at(chars, w) {
            Some((x, e)) => {
                let (y, mut rest) = parse_more_items_at(chars, x);
                let ghost rest_v = rest@;
                let ghost e_v = e;
                let mut items: Vec<LispVal> = Vec::new();
                items.push(e);
                items.append(&mut rest);
                proof {
                    assert(items@ =~= seq![e_v] + rest_v);
                    lemma_model_seq_cons(e_v, rest_v);
                    let ww = chars@.skip(w as int);
                    assert(parse_expr(ww) == Some((chars@.skip(x as int), e_v.model())));
                    assert(chars@.skip(x as int).len() < ww.len());
                    assert(ww.len() < chars@.skip(u as int).len());
                }
                (y, items)
            },
            None => (u, Vec::new()),
        }
    } else {
        (u, Vec::new())
    }
}

/// An ASCII letter or one of `+-!$%&*/:<=>?^_~`, alone, reads as the symbol of itself.
pub proof fn lemma_symbol_start_chars(c: char)
    requires
        ('a' <= c && c <= 'z') || ('A' <= c && c <= 'Z') || c == '+' || c == '-' || c == '!' || c == '$'
            || c == '%' || c == '&' || c == '*' || c == '/' || c == ':' || c == '<' || c == '=' || c == '>'
            || c == '?' || c == '^' || c == '_' || c == '~',
    ensures
        parse_expr(seq![c]) == Some((Seq::<char>::empty(), SExpr::Symbol(seq![c]))),
{
    let s = seq![c];
    assert(digit_len(s.drop_first()) == 0);
    assert(digit_len(s) == 0);
    assert(parse_integer(s) is None);
    assert(symbol_rest_len(s.drop_first()) == 0);
    assert(s.skip(1) =~= Seq::<char>::empty());
    assert(s.take(1) =~= s);
}

/// After a letter, an ASCII letter or digit or one of `!$%&*/:<=>?^_~` continues the symbol.
pub proof fn lemma_symbol_rest_chars(c: char)
    requires
        ('a' <= c && c <= 'z') || ('A' <= c && c <= 'Z') || ('0' <= c && c <= '9') || c == '!' || c == '$'
            || c == '%' || c == '&' || c == '*' || c == '/' || c == ':' || c == '<' || c == '=' || c == '>'
            || c == '?' || c == '^' || c == '_' || c == '~',
    ensures
        parse_expr(seq!['a', c]) == Some((Seq::<char>::empty(), SExpr::Symbol(seq!['a', c]))),
{
    let s = seq!['a', c];
    assert(digit_len(s) == 0);
    assert(parse_integer(s) is None);
    let t = s.drop_first();
    assert(t =~= seq![c]);
    assert(t.drop_first() =~= Seq::<char>::empty());
    assert(symbol_rest_len(t.drop_first()) == 0);
    assert(symbol_rest_len(t) == 1);
    assert(s.skip(2) =~= Seq::<char>::empty());
    assert(s.take(2) =~= s);
}

/// A decimal digit alone reads as the integer it stands for.
pub proof fn lemma_digit_reads_as_integer(c: char)
    requires
        '0' <= c && c <= '9',
    ensures
        parse_expr(seq![c]) == Some((Seq::<char>::empty(), SExpr::Integer((c as u32 - 48) as i64))),
{
    let s = seq![c];
    assert(s.drop_first() =~= Seq::<char>::empty());
    assert(digit_len(s.drop_first()) == 0);
    assert(digit_len(s) == 1);
    assert(s.take(1) =~= s);
    assert(s.drop_last() =~= Seq::<char>::empty());
    assert(decimal_value(Seq::<char>::empty()) == 0);
    assert(s.last() == c);
    assert(decimal_value(s) == (c as nat - '0' as nat) as nat);
    assert(s.skip(1) =~= Seq::<char>::empty());
}

/// A letter or digit between single quotes reads as that character.
pub proof fn lemma_char_literal(c: char)
    requires
        ('a' <= c && c <= 'z') || ('A' <= c && c <= 'Z') || ('0' <= c && c <= '9'),
    ensures
        parse_expr(seq!['\'', c, '\'']) == Some((Seq::<char>::empty(), SExpr::Character(c))),
{
    let s = seq!['\'', c, '\''];
    assert(digit_len(s) == 0);
    assert(parse_integer(s) is None);
    assert(s.skip(3) =~= Seq::<char>::empty());
}

/// The escapes `\n`, `\r`, `\t`, `\\`, `\'` and `\"` between single quotes read as line
/// feed, carriage return, tab, backslash, single quote and double quote.
pub proof fn lemma_escape_literal(c: char)
    requires
        c == 'n' || c == 'r' || c == 't' || c == '\\' || c == '\'' || c == '"',
    ensures
        parse_expr(seq!['\'', '\\', c, '\'']) == Some((Seq::<char>::empty(), SExpr::Character(
            if c == 'n' { '\n' } else if c == 'r' { '\r' } else if c == 't' { '\t' } else { c },
        ))),
{
    let s = seq!['\'', '\\', c, '\''];
    assert(digit_len(s) == 0);
    assert(parse_integer(s) is None);
    assert(s.skip(4) =~= Seq::<char>::empty());
}

/// The input does not start with an expression.
#[derive(Debug, Clone, Copy, PartialEq, Eq)]
pub struct ParseError;

/// The characters of `input`.
fn chars_of(input: &str) -> (v: Vec<char>)
    ensures
        v@ == input@,
{
    let n = input.unicode_len();
    let mut v: Vec<char> = Vec::new();
    let mut i: usize = 0;
    while i < n
        invariant
            i <= n,
            n == input@.len(),
            v@ == input@.take(i as int),
        decreases n - i,
    {
        v.push(input.get_char(i));
        assert(v@ =~= input@.take(i + 1));
        i = i + 1;
    }
    assert(input@.take(n as int) =~= input@);
    v
}

/// Read one expression from the start of `input`; returns the rest of the input, which is
/// what follows the expression (at least one character is read), and the value.
pub fn parse_lisp(input: &str) -> (r: Result<(&str, LispVal), ParseError>)
    ensures
        match parse_expr(input@) {
            Some((rest, e)) => r matches Ok((rest_str, v)) && rest_str@ == rest && v.model() == e,
            None => r is Err,
        },
        r matches Ok((rest_str, _)) ==> rest_str@.len() < input@.len()
            && rest_str@ == input@.skip(input@.len() - rest_str@.len()),
{
    let chars = chars_of(input);
    proof {
        assert(chars@.skip(0) =~= chars@);
    }
    match parse_expr_at(&chars, 0) {
        Some((k, v)) => {
            let rest = input.substring_char(k, chars.len());
            assert(rest@ =~= chars@.skip(k as int));
            Ok((rest, v))
        },
        None => Err(ParseError),
    }
}

} // verus!
