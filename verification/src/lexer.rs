//! The lexer: classifies a stream of characters into tokens — numbers,
//! names, punctuation symbols of one or two characters, statement
//! separators, brackets — against a keyword vocabulary, and ends the
//! stream with the end-of-stream marker. Only ASCII source is accepted.
//! Every scanning function is specified by a total specification scanner
//! over the character sequence.

use vstd::hash_map::StringHashMap;
use vstd::prelude::*;
use vstd::string::StrSliceExecFns;

use crate::types::{toks_model, Fault, TokS, TokenV};

verus! {

/// A word of the configured vocabulary that is not a keyword: the role an
/// imported module piece plays.
#[derive(Debug, Clone, Copy, PartialEq, Eq, Structural)]
pub enum ModulePiece {
    TransFormer,
    Streamer,
    Listener,
    Condition,
}

/// The keyword vocabulary the lexer classifies names against: a word
/// bound to a mark code is a keyword; other words of the configuration
/// name module pieces.
pub struct Vocabulary {
    pub keywords: StringHashMap<u8>,
    pub libwords: StringHashMap<ModulePiece>,
}

impl Vocabulary {
    /// An empty vocabulary: every name is a plain name.
    pub fn new() -> (r: Self)
        ensures
            r.keywords@ == Map::<Seq<char>, u8>::empty(),
            r.libwords@ == Map::<Seq<char>, ModulePiece>::empty(),
    {
        Vocabulary { keywords: StringHashMap::new(), libwords: StringHashMap::new() }
    }
}

/// Whitespace: blank, newline, carriage return, tab.
pub open spec fn is_space_char(c: char) -> bool {
    c == ' ' || c == '\n' || c == '\r' || c == '\t'
}

/// An ASCII digit.
pub open spec fn is_digit_char(c: char) -> bool {
    48 <= c as u32 <= 57
}

/// A character that may start a name: an ASCII letter or the underscore.
pub open spec fn is_name_start_char(c: char) -> bool {
    (65 <= c as u32 <= 90) || (97 <= c as u32 <= 122) || c as u32 == 95
}

/// A character that may continue a name: a letter, a digit, or the
/// underscore.
pub open spec fn is_name_char(c: char) -> bool {
    is_name_start_char(c) || is_digit_char(c)
}

/// ASCII punctuation.
pub open spec fn is_punct_char(c: char) -> bool {
    (33 <= c as u32 <= 47) || (58 <= c as u32 <= 64) || (91 <= c as u32 <= 96) || (123 <= c as u32
        <= 126)
}

/// The numeric value of a digit character.
pub open spec fn digit_val(c: char) -> isize {
    ((c as u32) - 48) as isize
}

/// The token a one-character symbol names, if any.
pub open spec fn symbol1_tok(c: char) -> Option<TokS> {
    if c == '(' {
        Some(TokS::Brackets { id: 1, is_opened: true })
    } else if c == ')' {
        Some(TokS::Brackets { id: 1, is_opened: false })
    } else if c == '[' {
        Some(TokS::Brackets { id: 2, is_opened: true })
    } else if c == ']' {
        Some(TokS::Brackets { id: 2, is_opened: false })
    } else if c == '{' {
        Some(TokS::Brackets { id: 3, is_opened: true })
    } else if c == '}' {
        Some(TokS::Brackets { id: 3, is_opened: false })
    } else if c == '<' {
        Some(TokS::Brackets { id: 4, is_opened: true })
    } else if c == '>' {
        Some(TokS::Brackets { id: 4, is_opened: false })
    } else if c == '~' {
        Some(TokS::Mark(0))
    } else if c == '!' {
        Some(TokS::Mark(1))
    } else if c == '@' {
        Some(TokS::Mark(2))
    } else if c == '#' {
        Some(TokS::Mark(3))
    } else if c == '$' {
        Some(TokS::Mark(4))
    } else if c == '^' {
        Some(TokS::Mark(6))
    } else if c == '&' {
        Some(TokS::Mark(7))
    } else if c == '?' {
        Some(TokS::Mark(8))
    } else if c == '|' {
        Some(TokS::Mark(9))
    } else if c == '=' {
        Some(TokS::Comparsion(1))
    } else if c == '+' {
        Some(TokS::Sign(1))
    } else if c == '-' {
        Some(TokS::Sign(2))
    } else if c == '*' {
        Some(TokS::Sign(3))
    } else if c == '/' {
        Some(TokS::Sign(4))
    } else if c == '%' {
        Some(TokS::Sign(5))
    } else {
        None
    }
}

/// The token a two-character symbol names, if any.
pub open spec fn symbol2_tok(c1: char, c2: char) -> Option<TokS> {
    if c1 == '!' && c2 == '!' {
        Some(TokS::Bool(false))
    } else if c1 == '=' && c2 == '=' {
        Some(TokS::Bool(true))
    } else if c1 == '!' && c2 == ':' {
        Some(TokS::Mark(11))
    } else if c1 == '!' && c2 == '-' {
        Some(TokS::Mark(12))
    } else if c1 == '!' && c2 == '+' {
        Some(TokS::Mark(13))
    } else if c1 == '-' && c2 == '-' {
        Some(TokS::Mark(14))
    } else if c1 == '=' && c2 == '>' {
        Some(TokS::Mark(15))
    } else if c1 == '-' && c2 == '>' {
        Some(TokS::Mark(16))
    } else if c1 == '|' && c2 == '+' {
        Some(TokS::Mark(17))
    } else if c1 == '|' && c2 == '-' {
        Some(TokS::Mark(18))
    } else if c1 == '~' && c2 == '+' {
        Some(TokS::Mark(19))
    } else if c1 == '~' && c2 == '-' {
        Some(TokS::Mark(20))
    } else if c1 == '@' && c2 == '+' {
        Some(TokS::Mark(21))
    } else if c1 == '@' && c2 == '-' {
        Some(TokS::Mark(22))
    } else if c1 == '>' && c2 == '>' {
        Some(TokS::Comparsion(2))
    } else if c1 == '<' && c2 == '<' {
        Some(TokS::Comparsion(3))
    } else if c1 == '!' && c2 == '=' {
        Some(TokS::Comparsion(4))
    } else if c1 == '=' && c2 == '!' {
        Some(TokS::Comparsion(4))
    } else if c1 == '>' && c2 == '=' {
        Some(TokS::Comparsion(5))
    } else if c1 == '<' && c2 == '=' {
        Some(TokS::Comparsion(6))
    } else {
        None
    }
}

/// The first index at or after `i` that does not continue a name.
pub open spec fn sp_name_end(s: Seq<char>, i: int) -> int
    decreases s.len() - i,
{
    if i < 0 || i >= s.len() || !is_name_char(s[i]) {
        i
    } else {
        sp_name_end(s, i + 1)
    }
}

/// The first index at or after `i` that is not plain punctuation; the
/// comma and the dot end a symbol run as well, since they are the
/// statement separators.
pub open spec fn sp_punct_end(s: Seq<char>, i: int) -> int
    decreases s.len() - i,
{
    if i < 0 || i >= s.len() || !is_punct_char(s[i]) || s[i] == ',' || s[i] == '.' {
        i
    } else {
        sp_punct_end(s, i + 1)
    }
}

/// Scans a digit run, accumulating its value; a value that leaves the
/// machine range is a syntax fault.
pub open spec fn sp_number(s: Seq<char>, i: int, acc: isize) -> Result<(isize, int), Fault>
    decreases s.len() - i,
{
    if i < 0 || i >= s.len() || !is_digit_char(s[i]) {
        Ok((acc, i))
    } else {
        match acc.checked_mul(10) {
            Some(m) => match m.checked_add(digit_val(s[i])) {
                Some(a) => sp_number(s, i + 1, a),
                None => Err(Fault::Syntax),
            },
            None => Err(Fault::Syntax),
        }
    }
}

/// The specification of the lexer from index `i`: whitespace is skipped,
/// a digit starts a number, a letter or underscore a name — a keyword of
/// the vocabulary becomes its mark — and punctuation starts a symbol of
/// one or two characters; the comma and the dot are separator tokens, and
/// one of them directly after a symbol is consumed with it. A character
/// that classifies as nothing is skipped; an unknown symbol is a syntax
/// fault. The token stream ends with the end-of-stream marker.
pub open spec fn sp_tokenize_from(s: Seq<char>, i: int, kw: Map<Seq<char>, u8>) -> Result<
    Seq<TokS>,
    Fault,
>
    decreases s.len() - i,
{
    if i < 0 || i >= s.len() {
        Ok(seq![TokS::EOF])
    } else {
        let c = s[i];
        if is_space_char(c) {
            sp_tokenize_from(s, i + 1, kw)
        } else if is_digit_char(c) {
            match sp_number(s, i, 0) {
                Err(f) => Err(f),
                Ok((v, j)) => if j <= i || j > s.len() {
                    Err(Fault::Syntax)
                } else {
                    match sp_tokenize_from(s, j, kw) {
                        Ok(rest) => Ok(seq![TokS::Number(v)] + rest),
                        Err(f) => Err(f),
                    }
                },
            }
        } else if is_name_start_char(c) {
            let j = sp_name_end(s, i + 1);
            if j <= i || j > s.len() {
                Err(Fault::Syntax)
            } else {
                let name = s.subrange(i, j);
                let tok = if kw.contains_key(name) {
                    TokS::Mark(kw[name])
                } else {
                    TokS::Name(name)
                };
                match sp_tokenize_from(s, j, kw) {
                    Ok(rest) => Ok(seq![tok] + rest),
                    Err(f) => Err(f),
                }
            }
        } else if c == ',' || c == '.' {
            match sp_tokenize_from(s, i + 1, kw) {
                Ok(rest) => Ok(seq![TokS::Dot(c == ',')] + rest),
                Err(f) => Err(f),
            }
        } else if is_punct_char(c) {
            let j = sp_punct_end(s, i + 1);
            if j <= i || j > s.len() {
                Err(Fault::Syntax)
            } else {
                let sym = if j - i == 1 {
                    symbol1_tok(s[i])
                } else if j - i == 2 {
                    symbol2_tok(s[i], s[i + 1])
                } else {
                    None
                };
                match sym {
                    None => Err(Fault::Syntax),
                    Some(tok) => if j < s.len() && (s[j] == ',' || s[j] == '.') {
                        match sp_tokenize_from(s, j + 1, kw) {
                            Ok(rest) => Ok(seq![tok, TokS::Dot(s[j] == ',')] + rest),
                            Err(f) => Err(f),
                        }
                    } else {
                        match sp_tokenize_from(s, j, kw) {
                            Ok(rest) => Ok(seq![tok] + rest),
                            Err(f) => Err(f),
                        }
                    },
                }
            }
        } else {
            sp_tokenize_from(s, i + 1, kw)
        }
    }
}

/// The specification of the whole lexer: the token stream of the source,
/// from its first character.
pub open spec fn sp_tokenize(s: Seq<char>, kw: Map<Seq<char>, u8>) -> Result<Seq<TokS>, Fault> {
    sp_tokenize_from(s, 0, kw)
}

/// The end of the name starting at `i`, as `sp_name_end` states it.
fn scan_name_end(code: &str, i: usize) -> (r: usize)
    requires
        vstd::string::is_ascii(code),
        i <= code@.len(),
    ensures
        r as int == sp_name_end(code@, i as int),
        i <= r <= code@.len(),
    decreases code@.len() - i,
{
    let n = code.unicode_len();
    if i >= n {
        return i;
    }
    let u = code.get_char(i) as u32;
    if (65 <= u && u <= 90) || (97 <= u && u <= 122) || u == 95 || (48 <= u && u <= 57) {
        scan_name_end(code, i + 1)
    } else {
        i
    }
}

/// The end of the symbol run starting at `i`, as `sp_punct_end` states
/// it.
fn scan_punct_end(code: &str, i: usize) -> (r: usize)
    requires
        vstd::string::is_ascii(code),
        i <= code@.len(),
    ensures
        r as int == sp_punct_end(code@, i as int),
        i <= r <= code@.len(),
    decreases code@.len() - i,
{
    let n = code.unicode_len();
    if i >= n {
        return i;
    }
    let c = code.get_char(i);
    let u = c as u32;
    let punct = (33 <= u && u <= 47) || (58 <= u && u <= 64) || (91 <= u && u <= 96) || (123 <= u
        && u <= 126);
    if !punct || c == ',' || c == '.' {
        i
    } else {
        scan_punct_end(code, i + 1)
    }
}

/// Scans a digit run accumulating its value, as `sp_number` states it.
fn scan_number(code: &str, i: usize, acc: isize) -> (r: Result<(isize, usize), Fault>)
    requires
        vstd::string::is_ascii(code),
        i <= code@.len(),
    ensures
        ({
            let sp = sp_number(code@, i as int, acc);
            match r {
                Ok(p) => sp == Ok::<(isize, int), Fault>((p.0, p.1 as int)) && i <= p.1
                    <= code@.len(),
                Err(f) => sp == Err::<(isize, int), Fault>(f),
            }
        }),
    decreases code@.len() - i,
{
    let n = code.unicode_len();
    if i >= n {
        return Ok((acc, i));
    }
    let u = code.get_char(i) as u32;
    if !(48 <= u && u <= 57) {
        return Ok((acc, i));
    }
    let d = (u - 48) as isize;
    match acc.checked_mul(10) {
        Some(m) => match m.checked_add(d) {
            Some(a) => scan_number(code, i + 1, a),
            None => Err(Fault::Syntax),
        },
        None => Err(Fault::Syntax),
    }
}

/// The token of a one-character symbol, as `symbol1_tok` states it.
fn symbol_token1(c: char) -> (r: Option<TokenV>)
    ensures
        match r {
            Some(t) => symbol1_tok(c) == Some(crate::types::tok_model(t)),
            None => symbol1_tok(c) == None::<TokS>,
        },
{
    if c == '(' {
        Some(TokenV::Brackets { id: 1, is_opened: true })
    } else if c == ')' {
        Some(TokenV::Brackets { id: 1, is_opened: false })
    } else if c == '[' {
        Some(TokenV::Brackets { id: 2, is_opened: true })
    } else if c == ']' {
        Some(TokenV::Brackets { id: 2, is_opened: false })
    } else if c == '{' {
        Some(TokenV::Brackets { id: 3, is_opened: true })
    } else if c == '}' {
        Some(TokenV::Brackets { id: 3, is_opened: false })
    } else if c == '<' {
        Some(TokenV::Brackets { id: 4, is_opened: true })
    } else if c == '>' {
        Some(TokenV::Brackets { id: 4, is_opened: false })
    } else if c == '~' {
        Some(TokenV::Mark(0))
    } else if c == '!' {
        Some(TokenV::Mark(1))
    } else if c == '@' {
        Some(TokenV::Mark(2))
    } else if c == '#' {
        Some(TokenV::Mark(3))
    } else if c == '$' {
        Some(TokenV::Mark(4))
    } else if c == '^' {
        Some(TokenV::Mark(6))
    } else if c == '&' {
        Some(TokenV::Mark(7))
    } else if c == '?' {
        Some(TokenV::Mark(8))
    } else if c == '|' {
        Some(TokenV::Mark(9))
    } else if c == '=' {
        Some(TokenV::Comparsion(1))
    } else if c == '+' {
        Some(TokenV::Sign(1))
    } else if c == '-' {
        Some(TokenV::Sign(2))
    } else if c == '*' {
        Some(TokenV::Sign(3))
    } else if c == '/' {
        Some(TokenV::Sign(4))
    } else if c == '%' {
        Some(TokenV::Sign(5))
    } else {
        None
    }
}

/// The token of a two-character symbol, as `symbol2_tok` states it.
fn symbol_token2(c1: char, c2: char) -> (r: Option<TokenV>)
    ensures
        match r {
            Some(t) => symbol2_tok(c1, c2) == Some(crate::types::tok_model(t)),
            None => symbol2_tok(c1, c2) == None::<TokS>,
        },
{
    if c1 == '!' && c2 == '!' {
        Some(TokenV::Bool(false))
    } else if c1 == '=' && c2 == '=' {
        Some(TokenV::Bool(true))
    } else if c1 == '!' && c2 == ':' {
        Some(TokenV::Mark(11))
    } else if c1 == '!' && c2 == '-' {
        Some(TokenV::Mark(12))
    } else if c1 == '!' && c2 == '+' {
        Some(TokenV::Mark(13))
    } else if c1 == '-' && c2 == '-' {
        Some(TokenV::Mark(14))
    } else if c1 == '=' && c2 == '>' {
        Some(TokenV::Mark(15))
    } else if c1 == '-' && c2 == '>' {
        Some(TokenV::Mark(16))
    } else if c1 == '|' && c2 == '+' {
        Some(TokenV::Mark(17))
    } else if c1 == '|' && c2 == '-' {
        Some(TokenV::Mark(18))
    } else if c1 == '~' && c2 == '+' {
        Some(TokenV::Mark(19))
    } else if c1 == '~' && c2 == '-' {
        Some(TokenV::Mark(20))
    } else if c1 == '@' && c2 == '+' {
        Some(TokenV::Mark(21))
    } else if c1 == '@' && c2 == '-' {
        Some(TokenV::Mark(22))
    } else if c1 == '>' && c2 == '>' {
        Some(TokenV::Comparsion(2))
    } else if c1 == '<' && c2 == '<' {
        Some(TokenV::Comparsion(3))
    } else if c1 == '!' && c2 == '=' {
        Some(TokenV::Comparsion(4))
    } else if c1 == '=' && c2 == '!' {
        Some(TokenV::Comparsion(4))
    } else if c1 == '>' && c2 == '=' {
        Some(TokenV::Comparsion(5))
    } else if c1 == '<' && c2 == '=' {
        Some(TokenV::Comparsion(6))
    } else {
        None
    }
}

/// Tokenizes the source from index `i` on, as `sp_tokenize_from` states
/// it.
#[verifier::rlimit(100)]
fn tokenize_from(code: &str, i: usize, vocab: &Vocabulary) -> (r: Result<Vec<TokenV>, Fault>)
    requires
        vstd::string::is_ascii(code),
        i <= code@.len(),
    ensures
        ({
            let sp = sp_tokenize_from(code@, i as int, vocab.keywords@);
            match r {
                Ok(toks) => sp == Ok::<Seq<TokS>, Fault>(toks_model(toks@)),
                Err(f) => sp == Err::<Seq<TokS>, Fault>(f),
            }
        }),
    decreases code@.len() - i,
{
    let ghost cm = code@;
    let n = code.unicode_len();
    if i >= n {
        let mut out: Vec<TokenV> = Vec::new();
        out.push(TokenV::EOF);
        proof {
            assert(toks_model(out@) =~= seq![TokS::EOF]);
        }
        return Ok(out);
    }
    let c = code.get_char(i);
    let u = c as u32;
    if c == ' ' || c == '\n' || c == '\r' || c == '\t' {
        tokenize_from(code, i + 1, vocab)
    } else if 48 <= u && u <= 57 {
        match scan_number(code, i, 0) {
            Err(f) => Err(f),
            Ok(p) => {
                let (v, j) = p;
                if j <= i {
                    return Err(Fault::Syntax);
                }
                match tokenize_from(code, j, vocab) {
                    Ok(mut rest) => {
                        let ghost rest_m = toks_model(rest@);
                        rest.insert(0, TokenV::Number(v));
                        proof {
                            assert(toks_model(rest@) =~= seq![TokS::Number(v)] + rest_m);
                        }
                        Ok(rest)
                    },
                    Err(f) => Err(f),
                }
            },
        }
    } else if (65 <= u && u <= 90) || (97 <= u && u <= 122) || u == 95 {
        let j = scan_name_end(code, i + 1);
        let slice = code.substring_ascii(i, j);
        let tok = match vocab.keywords.get(slice) {
            Some(m) => TokenV::Mark(*m),
            None => TokenV::Name(slice.to_owned()),
        };
        let ghost tok_m = crate::types::tok_model(tok);
        proof {
            assert(slice@ == cm.subrange(i as int, j as int));
        }
        match tokenize_from(code, j, vocab) {
            Ok(mut rest) => {
                let ghost rest_m = toks_model(rest@);
                rest.insert(0, tok);
                proof {
                    assert(toks_model(rest@) =~= seq![tok_m] + rest_m);
                }
                Ok(rest)
            },
            Err(f) => Err(f),
        }
    } else if c == ',' || c == '.' {
        match tokenize_from(code, i + 1, vocab) {
            Ok(mut rest) => {
                let ghost rest_m = toks_model(rest@);
                rest.insert(0, TokenV::Dot(c == ','));
                proof {
                    assert(toks_model(rest@) =~= seq![TokS::Dot(c == ',')] + rest_m);
                }
                Ok(rest)
            },
            Err(f) => Err(f),
        }
    } else if (33 <= u && u <= 47) || (58 <= u && u <= 64) || (91 <= u && u <= 96) || (123 <= u
        && u <= 126) {
        let j = scan_punct_end(code, i + 1);
        let sym = if j - i == 1 {
            symbol_token1(c)
        } else if j - i == 2 {
            symbol_token2(c, code.get_char(i + 1))
        } else {
            None
        };
        match sym {
            None => Err(Fault::Syntax),
            Some(tok) => {
                let ghost tok_m = crate::types::tok_model(tok);
                if j < n {
                    let cj = code.get_char(j);
                    if cj == ',' || cj == '.' {
                        match tokenize_from(code, j + 1, vocab) {
                            Ok(mut rest) => {
                                let ghost rest_m = toks_model(rest@);
                                rest.insert(0, TokenV::Dot(cj == ','));
                                rest.insert(0, tok);
                                proof {
                                    assert(toks_model(rest@) =~= seq![
                                        tok_m,
                                        TokS::Dot(cj == ','),
                                    ] + rest_m);
                                }
                                Ok(rest)
                            },
                            Err(f) => Err(f),
                        }
                    } else {
                        match tokenize_from(code, j, vocab) {
                            Ok(mut rest) => {
                                let ghost rest_m = toks_model(rest@);
                                rest.insert(0, tok);
                                proof {
                                    assert(toks_model(rest@) =~= seq![tok_m] + rest_m);
                                }
                                Ok(rest)
                            },
                            Err(f) => Err(f),
                        }
                    }
                } else {
                    match tokenize_from(code, j, vocab) {
                        Ok(mut rest) => {
                            let ghost rest_m = toks_model(rest@);
                            rest.insert(0, tok);
                            proof {
                                assert(toks_model(rest@) =~= seq![tok_m] + rest_m);
                            }
                            Ok(rest)
                        },
                        Err(f) => Err(f),
                    }
                }
            },
        }
    } else {
        tokenize_from(code, i + 1, vocab)
    }
}

/// Tokenizes a source text against a vocabulary, as `sp_tokenize` states
/// it; a source that is not ASCII is a syntax fault.
pub fn tokenize_code(code: &str, vocab: &Vocabulary) -> (r: Result<Vec<TokenV>, Fault>)
    ensures
        ({
            if vstd::string::is_ascii(code) {
                let sp = sp_tokenize(code@, vocab.keywords@);
                match r {
                    Ok(toks) => sp == Ok::<Seq<TokS>, Fault>(toks_model(toks@)),
                    Err(f) => sp == Err::<Seq<TokS>, Fault>(f),
                }
            } else {
                r == Err::<Vec<TokenV>, Fault>(Fault::Syntax)
            }
        }),
{
    if !code.is_ascii() {
        return Err(Fault::Syntax);
    }
    tokenize_from(code, 0, vocab)
}

} // verus!
