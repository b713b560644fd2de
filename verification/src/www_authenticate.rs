//! Parsing of the `WWW-Authenticate` challenge header.
//!
//! The grammar accepted is one challenge of the shape
//! `Method key="value", key="value", ...`: a method of letters, then
//! one or more parameters whose keys are letters and whose values are
//! non-empty and quote-free; spaces and tabs may follow the method and
//! each comma. Multiple simultaneous challenges are not supported.

use vstd::prelude::*;
use vstd::string::StrSliceExecFns;
use vstd::string::StringExecFns;
use crate::helpers::{find_first, first_occurrence_at, lemma_first_occurrence_unique, str_eq};

verus! {

// ------------------------------------------------------------------
// ASCII lower-casing
// ------------------------------------------------------------------

/// The lower-case form of one character (ASCII letters only).
pub open spec fn lower_char(c: char) -> char {
    if c == 'A' {
        'a'
    } else if c == 'B' {
        'b'
    } else if c == 'C' {
        'c'
    } else if c == 'D' {
        'd'
    } else if c == 'E' {
        'e'
    } else if c == 'F' {
        'f'
    } else if c == 'G' {
        'g'
    } else if c == 'H' {
        'h'
    } else if c == 'I' {
        'i'
    } else if c == 'J' {
        'j'
    } else if c == 'K' {
        'k'
    } else if c == 'L' {
        'l'
    } else if c == 'M' {
        'm'
    } else if c == 'N' {
        'n'
    } else if c == 'O' {
        'o'
    } else if c == 'P' {
        'p'
    } else if c == 'Q' {
        'q'
    } else if c == 'R' {
        'r'
    } else if c == 'S' {
        's'
    } else if c == 'T' {
        't'
    } else if c == 'U' {
        'u'
    } else if c == 'V' {
        'v'
    } else if c == 'W' {
        'w'
    } else if c == 'X' {
        'x'
    } else if c == 'Y' {
        'y'
    } else if c == 'Z' {
        'z'
    } else {
        c
    }
}

/// ASCII lower-casing of a character sequence.
pub open spec fn lower_ascii(s: Seq<char>) -> Seq<char> {
    Seq::new(s.len(), |i: int| lower_char(s[i]))
}

/// ASCII lower-casing of a string.
fn to_lower(s: &str) -> (r: String)
    ensures
        r@ == lower_ascii(s@),
{
    let len: usize = s.unicode_len();
    let mut out = String::new();
    let mut i: usize = 0;
    while i < len
        invariant
            len == s@.len(),
            i <= len,
            out@ == lower_ascii(s@.take(i as int)),
        decreases len - i,
    {
        let c = s.get_char(i);
        if c == 'A' {
            out.append("a");
        } else if c == 'B' {
            out.append("b");
        } else if c == 'C' {
            out.append("c");
        } else if c == 'D' {
            out.append("d");
        } else if c == 'E' {
            out.append("e");
        } else if c == 'F' {
            out.append("f");
        } else if c == 'G' {
            out.append("g");
        } else if c == 'H' {
            out.append("h");
        } else if c == 'I' {
            out.append("i");
        } else if c == 'J' {
            out.append("j");
        } else if c == 'K' {
            out.append("k");
        } else if c == 'L' {
            out.append("l");
        } else if c == 'M' {
            out.append("m");
        } else if c == 'N' {
            out.append("n");
        } else if c == 'O' {
            out.append("o");
        } else if c == 'P' {
            out.append("p");
        } else if c == 'Q' {
            out.append("q");
        } else if c == 'R' {
            out.append("r");
        } else if c == 'S' {
            out.append("s");
        } else if c == 'T' {
            out.append("t");
        } else if c == 'U' {
            out.append("u");
        } else if c == 'V' {
            out.append("v");
        } else if c == 'W' {
            out.append("w");
        } else if c == 'X' {
            out.append("x");
        } else if c == 'Y' {
            out.append("y");
        } else if c == 'Z' {
            out.append("z");
        } else {
            let piece = s.substring_char(i, i + 1);
            proof {
                assert(piece@ =~= seq![s@[i as int]]);
            }
            out.append(piece);
        }
        proof {
            reveal_strlit("a");
            reveal_strlit("b");
            reveal_strlit("c");
            reveal_strlit("d");
            reveal_strlit("e");
            reveal_strlit("f");
            reveal_strlit("g");
            reveal_strlit("h");
            reveal_strlit("i");
            reveal_strlit("j");
            reveal_strlit("k");
            reveal_strlit("l");
            reveal_strlit("m");
            reveal_strlit("n");
            reveal_strlit("o");
            reveal_strlit("p");
            reveal_strlit("q");
            reveal_strlit("r");
            reveal_strlit("s");
            reveal_strlit("t");
            reveal_strlit("u");
            reveal_strlit("v");
            reveal_strlit("w");
            reveal_strlit("x");
            reveal_strlit("y");
            reveal_strlit("z");
            assert(out@ =~= lower_ascii(s@.take(i as int + 1)));
        }
        i = i + 1;
    }
    proof {
        assert(s@.take(len as int) =~= s@);
        assert(out@ =~= lower_ascii(s@));
    }
    out
}

// ------------------------------------------------------------------
// Challenge grammar
// ------------------------------------------------------------------

pub open spec fn is_alpha_char(c: char) -> bool {
    ||| ('a' as u32) <= (c as u32) && (c as u32) <= ('z' as u32)
    ||| ('A' as u32) <= (c as u32) && (c as u32) <= ('Z' as u32)
}

/// A method name: one or more letters.
pub open spec fn spec_wf_method(s: Seq<char>) -> bool {
    s.len() > 0 && forall|i: int| 0 <= i < s.len() ==> is_alpha_char(s[i])
}

fn chars_all_alpha(s: &str) -> (r: bool)
    ensures
        r == forall|i: int| 0 <= i < s@.len() ==> is_alpha_char(s@[i]),
{
    let len: usize = s.unicode_len();
    let mut i: usize = 0;
    while i < len
        invariant
            len == s@.len(),
            i <= len,
            forall|j: int| 0 <= j < i ==> is_alpha_char(s@[j]),
        decreases len - i,
    {
        let c = s.get_char(i);
        let u = c as u32;
        let ok = (u >= 'a' as u32 && u <= 'z' as u32) || (u >= 'A' as u32 && u <= 'Z' as u32);
        if !ok {
            return false;
        }
        i = i + 1;
    }
    true
}

/// A space or tab, skippable between challenge parameters.
pub open spec fn is_param_space(c: char) -> bool {
    c == ' ' || c == '\t'
}

/// The sequence with its leading spaces and tabs dropped.
pub open spec fn spec_skip_spaces(s: Seq<char>) -> Seq<char>
    decreases s.len(),
{
    if s.len() > 0 && is_param_space(s[0]) {
        spec_skip_spaces(s.drop_first())
    } else {
        s
    }
}

pub broadcast proof fn lemma_skip_spaces_len(s: Seq<char>)
    ensures
        (#[trigger] spec_skip_spaces(s)).len() <= s.len(),
    decreases s.len(),
{
    if s.len() > 0 && is_param_space(s[0]) {
        lemma_skip_spaces_len(s.drop_first());
    }
}

proof fn lemma_skip_spaces_at(s: Seq<char>, i: int)
    requires
        0 <= i <= s.len(),
        forall|j: int| 0 <= j < i ==> is_param_space(s[j]),
        i == s.len() || !is_param_space(s[i]),
    ensures
        spec_skip_spaces(s) == s.skip(i),
    decreases i,
{
    if i == 0 {
        assert(s.skip(0) =~= s);
    } else {
        assert(is_param_space(s[0]));
        lemma_skip_spaces_at(s.drop_first(), i - 1);
        assert(s.drop_first().skip(i - 1) =~= s.skip(i));
    }
}

/// Drops leading spaces and tabs.
fn skip_spaces<'a>(s: &'a str) -> (r: &'a str)
    ensures
        r@ == spec_skip_spaces(s@),
{
    let len: usize = s.unicode_len();
    let mut i: usize = 0;
    while i < len
        invariant
            len == s@.len(),
            i <= len,
            forall|j: int| 0 <= j < i ==> is_param_space(s@[j]),
        decreases len - i,
    {
        let c = s.get_char(i);
        if !(c == ' ' || c == '\t') {
            let r = s.substring_char(i, len);
            proof {
                assert(r@ =~= s@.skip(i as int));
                lemma_skip_spaces_at(s@, i as int);
            }
            return r;
        }
        i = i + 1;
    }
    let r = s.substring_char(len, len);
    proof {
        assert(r@ =~= s@.skip(len as int));
        lemma_skip_spaces_at(s@, len as int);
    }
    r
}

/// The parameter list grammar: `key="value"` pairs joined by commas,
/// keys being letters, values non-empty and quote-free.
pub open spec fn spec_parse_params(s: Seq<char>) -> Option<Seq<(Seq<char>, Seq<char>)>>
    decreases s.len(),
    via spec_parse_params_decreases
{
    if !(exists|i: int| first_occurrence_at(s, '=', i)) {
        None
    } else {
        let e = choose|i: int| first_occurrence_at(s, '=', i);
        let key = s.take(e);
        if !(key.len() > 0 && (forall|i: int| 0 <= i < key.len() ==> is_alpha_char(key[i]))) {
            None
        } else if !(e + 1 < s.len() && s[e + 1] == '"') {
            None
        } else {
            let rest = s.skip(e + 2);
            if !(exists|q: int| first_occurrence_at(rest, '"', q)) {
                None
            } else {
                let q = choose|q: int| first_occurrence_at(rest, '"', q);
                let value = rest.take(q);
                if value.len() == 0 {
                    None
                } else {
                    let tail = rest.skip(q + 1);
                    if tail.len() == 0 {
                        Some(seq![(key, value)])
                    } else if tail[0] == ',' {
                        match spec_parse_params(spec_skip_spaces(tail.skip(1))) {
                            Some(ps) => Some(seq![(key, value)] + ps),
                            None => None,
                        }
                    } else {
                        None
                    }
                }
            }
        }
    }
}

#[via_fn]
proof fn spec_parse_params_decreases(s: Seq<char>) {
    broadcast use lemma_skip_spaces_len;

}

/// Parses a parameter list; None exactly when the text does not match
/// the grammar.
fn parse_params(s: &str) -> (r: Option<Vec<(String, String)>>)
    ensures
        match r {
            Some(v) => spec_parse_params(s@) == Some(v.deep_view()),
            None => spec_parse_params(s@) is None,
        },
    decreases s@.len(),
{
    let len: usize = s.unicode_len();
    match find_first(s, '=') {
        None => None,
        Some(e) => {
            proof {
                let e2 = choose|i: int| first_occurrence_at(s@, '=', i);
                lemma_first_occurrence_unique(s@, '=', e as int, e2);
            }
            let key = s.substring_char(0, e);
            proof {
                assert(key@ =~= s@.take(e as int));
            }
            if key.is_empty() || !chars_all_alpha(key) {
                return None;
            }
            if !(e + 1 < len && s.get_char(e + 1) == '"') {
                return None;
            }
            let rest = s.substring_char(e + 2, len);
            proof {
                assert(rest@ =~= s@.skip(e as int + 2));
            }
            match find_first(rest, '"') {
                None => None,
                Some(q) => {
                    proof {
                        let q2 = choose|i: int| first_occurrence_at(rest@, '"', i);
                        lemma_first_occurrence_unique(rest@, '"', q as int, q2);
                    }
                    let value = rest.substring_char(0, q);
                    proof {
                        assert(value@ =~= rest@.take(q as int));
                    }
                    if value.is_empty() {
                        return None;
                    }
                    let rest_len: usize = rest.unicode_len();
                    let tail = rest.substring_char(q + 1, rest_len);
                    proof {
                        assert(tail@ =~= rest@.skip(q as int + 1));
                    }
                    if tail.is_empty() {
                        let mut out: Vec<(String, String)> = Vec::new();
                        out.push((key.to_owned(), value.to_owned()));
                        proof {
                            assert(out.deep_view() =~= seq![(key@, value@)]);
                        }
                        Some(out)
                    } else if tail.get_char(0) == ',' {
                        let tail_len: usize = tail.unicode_len();
                        let more = skip_spaces(tail.substring_char(1, tail_len));
                        proof {
                            broadcast use lemma_skip_spaces_len;

                            assert(tail@.skip(1) =~= rest@.skip(q as int + 1).skip(1));
                            assert(more@ == spec_skip_spaces(tail@.skip(1)));
                        }
                        match parse_params(more) {
                            Some(mut ps) => {
                                let ghost pre = ps.deep_view();
                                ps.insert(0, (key.to_owned(), value.to_owned()));
                                proof {
                                    assert(ps.deep_view() =~= seq![(key@, value@)] + pre);
                                }
                                Some(ps)
                            },
                            None => None,
                        }
                    } else {
                        None
                    }
                },
            }
        },
    }
}

// ------------------------------------------------------------------
// The challenge
// ------------------------------------------------------------------

/// What parsing a challenge header yields, mathematically.
pub ghost enum ChallengeModel {
    Basic(Seq<(Seq<char>, Seq<char>)>),
    Bearer(Seq<(Seq<char>, Seq<char>)>),
}

/// Why a challenge header was rejected, mathematically.
pub ghost enum WwwErrorModel {
    MissingMethod,
    UnsupportedMethod(Seq<char>),
}

/// Why a challenge header was rejected.
#[derive(Debug)]
pub enum WwwAuthenticateError {
    MissingMethod,
    UnsupportedMethod(String),
}

impl View for WwwAuthenticateError {
    type V = WwwErrorModel;

    open spec fn view(&self) -> WwwErrorModel {
        match self {
            WwwAuthenticateError::MissingMethod => WwwErrorModel::MissingMethod,
            WwwAuthenticateError::UnsupportedMethod(m) => WwwErrorModel::UnsupportedMethod(m@),
        }
    }
}

/// A parsed challenge: the scheme and its parameters.
pub enum AuthenticationChallenge {
    Basic(Vec<(String, String)>),
    Bearer(Vec<(String, String)>),
}

impl View for AuthenticationChallenge {
    type V = ChallengeModel;

    open spec fn view(&self) -> ChallengeModel {
        match self {
            AuthenticationChallenge::Basic(ps) => ChallengeModel::Basic(ps.deep_view()),
            AuthenticationChallenge::Bearer(ps) => ChallengeModel::Bearer(ps.deep_view()),
        }
    }
}

/// What a challenge header parses to: the method up to the first space,
/// lower-cased, and the parameter list after it.
pub open spec fn spec_parse_challenge(s: Seq<char>) -> Result<ChallengeModel, WwwErrorModel> {
    if exists|i: int| first_occurrence_at(s, ' ', i) {
        let i = choose|i: int| first_occurrence_at(s, ' ', i);
        if !spec_wf_method(s.take(i)) {
            Err(WwwErrorModel::MissingMethod)
        } else {
            let method = lower_ascii(s.take(i));
            match spec_parse_params(spec_skip_spaces(s.skip(i + 1))) {
                Some(ps) => {
                    if method == "basic"@ {
                        Ok(ChallengeModel::Basic(ps))
                    } else if method == "bearer"@ {
                        Ok(ChallengeModel::Bearer(ps))
                    } else {
                        Err(WwwErrorModel::UnsupportedMethod(method))
                    }
                },
                None => Err(WwwErrorModel::MissingMethod),
            }
        }
    } else {
        Err(WwwErrorModel::MissingMethod)
    }
}

impl AuthenticationChallenge {
    /// Parses a `WWW-Authenticate` header value into the single
    /// challenge it carries.
    pub fn from_www_authenticate(header_value: &str) -> (r: Result<Self, WwwAuthenticateError>)
        ensures
            match r {
                Ok(ch) => spec_parse_challenge(header_value@) matches Ok(cm) && ch@ == cm,
                Err(e) => spec_parse_challenge(header_value@) matches Err(em) && e@ == em,
            },
    {
        let len: usize = header_value.unicode_len();
        match find_first(header_value, ' ') {
            None => Err(WwwAuthenticateError::MissingMethod),
            Some(i) => {
                proof {
                    let i2 = choose|k: int| first_occurrence_at(header_value@, ' ', k);
                    lemma_first_occurrence_unique(header_value@, ' ', i as int, i2);
                }
                let method_raw = header_value.substring_char(0, i);
                proof {
                    assert(method_raw@ =~= header_value@.take(i as int));
                }
                if method_raw.is_empty() || !chars_all_alpha(method_raw) {
                    return Err(WwwAuthenticateError::MissingMethod);
                }
                let method = to_lower(method_raw);
                let rest = skip_spaces(header_value.substring_char(i + 1, len));
                proof {
                    assert(rest@ == spec_skip_spaces(header_value@.skip(i as int + 1)));
                }
                match parse_params(rest) {
                    None => Err(WwwAuthenticateError::MissingMethod),
                    Some(ps) => {
                        if str_eq(method.as_str(), "basic") {
                            Ok(AuthenticationChallenge::Basic(ps))
                        } else if str_eq(method.as_str(), "bearer") {
                            Ok(AuthenticationChallenge::Bearer(ps))
                        } else {
                            Err(WwwAuthenticateError::UnsupportedMethod(method))
                        }
                    },
                }
            },
        }
    }

    /// The challenge's parameters, whatever the scheme.
    pub fn authentication_parameters(&self) -> (r: &Vec<(String, String)>)
        ensures
            match self@ {
                ChallengeModel::Basic(ps) => r.deep_view() == ps,
                ChallengeModel::Bearer(ps) => r.deep_view() == ps,
            },
    {
        match self {
            AuthenticationChallenge::Basic(params) => params,
            AuthenticationChallenge::Bearer(params) => params,
        }
    }
}

} // verus!
