use std::collections::VecDeque;

use vstd::prelude::*;

use super::{tokens_view, Token, TokenType, TokenView};
use crate::error::{TokenError, TokenErrorType};
use crate::text::{extend_chars, str_chars, string_chars};

verus! {

/// How an optional value is printed in messages: `None`, or `Some("...")`.
pub open spec fn debug_value(v: Option<Seq<char>>) -> Seq<char> {
    match v {
        None => "None"@,
        Some(s) => "Some(\""@ + s + "\")"@,
    }
}

fn push_debug_value(out: &mut Vec<char>, v: &Option<String>)
    ensures
        final(out)@ == old(out)@ + debug_value(
            match v {
                Some(s) => Some(s@),
                None => None,
            },
        ),
{
    match v {
        None => extend_chars(out, &str_chars("None")),
        Some(s) => {
            extend_chars(out, &str_chars("Some(\""));
            extend_chars(out, &string_chars(s));
            extend_chars(out, &str_chars("\")"));
            assert(out@ =~= old(out)@ + ("Some(\""@ + s@ + "\")"@));
        },
    }
}

pub open spec fn opt_view(v: Option<String>) -> Option<Seq<char>> {
    match v {
        Some(s) => Some(s@),
        None => None,
    }
}

fn same_value(a: &Option<String>, b: &Option<String>) -> (r: bool)
    ensures
        r == (opt_view(*a) == opt_view(*b)),
{
    match a {
        Some(x) => match b {
            Some(y) => {
                x.eq(y)
            },
            None => false,
        },
        None => b.is_none(),
    }
}

/// The message given when the next token has the expected type but another value.
pub open spec fn wrong_value_message(expected: Option<Seq<char>>, found: Option<Seq<char>>) -> Seq<char> {
    "Expected next token to have value "@ + debug_value(expected) + " but found "@ + debug_value(found)
}

/// The message given when the next token has the expected value but another type.
pub open spec fn wrong_type_message(expected: TokenType, found: TokenType) -> Seq<char> {
    "Expected next token to have type "@ + expected.spec_name() + " but found "@ + found.spec_name()
}

/// The message given when the next token has neither the expected type nor value.
pub open spec fn wrong_token_message(
    expected_type: TokenType,
    expected: Option<Seq<char>>,
    found_type: TokenType,
    found: Option<Seq<char>>,
) -> Seq<char> {
    "Expected next token to have type "@ + expected_type.spec_name() + " and value "@
        + debug_value(expected) + " but found "@ + found_type.spec_name() + ", "@ + debug_value(found)
}

/// Consumes the next token of the stream and checks that it has the expected
/// type and value.
pub fn ensure_next_token(
    stream: &mut VecDeque<Token>,
    expected_ttype: TokenType,
    expected_value: Option<String>,
) -> (r: Result<(), TokenError>)
    ensures
        old(stream)@.len() == 0 ==> final(stream)@ == old(stream)@ && (r matches Err(e)
            && e@.error_type == TokenErrorType::UnexpectedEndOfStream && e@.text
            == "Expected a token but found nothing"@ && e@.location is None),
        old(stream)@.len() > 0 ==> {
            let t = old(stream)@[0]@;
            let ev = opt_view(expected_value);
            &&& final(stream)@ == old(stream)@.drop_first()
            &&& (t.token_type == expected_ttype && t.value == ev) ==> r is Ok
            &&& !(t.token_type == expected_ttype && t.value == ev) ==> (r matches Err(e)
                && e@.error_type == TokenErrorType::UnexpectedToken
                && e@.location == Some(old(stream)@[0].meta.spec_location())
                && e@.text == if t.token_type == expected_ttype {
                    wrong_value_message(ev, t.value)
                } else if t.value == ev {
                    wrong_type_message(expected_ttype, t.token_type)
                } else {
                    wrong_token_message(expected_ttype, ev, t.token_type, t.value)
                })
        },
{
    match stream.pop_front() {
        Some(t) => {
            assert(old(stream)@.drop_first() =~= old(stream)@.subrange(1, old(stream)@.len() as int));
            let same_type = t.token_type == expected_ttype;
            let same_val = same_value(&t.value, &expected_value);
            if same_type && same_val {
                Ok(())
            } else if same_type {
                let mut msg = str_chars("Expected next token to have value ");
                push_debug_value(&mut msg, &expected_value);
                extend_chars(&mut msg, &str_chars(" but found "));
                push_debug_value(&mut msg, &t.value);
                Err(TokenError::with_chars(TokenErrorType::UnexpectedToken, &msg, Some(t.meta.location())))
            } else if same_val {
                let mut msg = str_chars("Expected next token to have type ");
                extend_chars(&mut msg, &expected_ttype.name_chars());
                extend_chars(&mut msg, &str_chars(" but found "));
                extend_chars(&mut msg, &t.token_type.name_chars());
                Err(TokenError::with_chars(TokenErrorType::UnexpectedToken, &msg, Some(t.meta.location())))
            } else {
                let mut msg = str_chars("Expected next token to have type ");
                extend_chars(&mut msg, &expected_ttype.name_chars());
                extend_chars(&mut msg, &str_chars(" and value "));
                push_debug_value(&mut msg, &expected_value);
                extend_chars(&mut msg, &str_chars(" but found "));
                extend_chars(&mut msg, &t.token_type.name_chars());
                extend_chars(&mut msg, &str_chars(", "));
                push_debug_value(&mut msg, &t.value);
                Err(TokenError::with_chars(TokenErrorType::UnexpectedToken, &msg, Some(t.meta.location())))
            }
        },
        None => Err(
            TokenError::new(
                TokenErrorType::UnexpectedEndOfStream,
                "Expected a token but found nothing",
                None,
            ),
        ),
    }
}

/// The index of the first token of the given type, if any.
pub open spec fn first_of_type(s: Seq<TokenView>, t: TokenType) -> Option<int>
    decreases s.len(),
{
    if s.len() == 0 {
        None
    } else if s[0].token_type == t {
        Some(0)
    } else {
        match first_of_type(s.drop_first(), t) {
            Some(k) => Some(k + 1),
            None => None,
        }
    }
}

proof fn lemma_first_of_type(s: Seq<TokenView>, t: TokenType)
    ensures
        first_of_type(s, t) matches Some(k) ==> 0 <= k < s.len() && s[k].token_type == t && forall|
            j: int,
        | 0 <= j < k ==> s[j].token_type != t,
        first_of_type(s, t) is None ==> forall|j: int| 0 <= j < s.len() ==> s[j].token_type != t,
    decreases s.len(),
{
    if s.len() > 0 && s[0].token_type != t {
        lemma_first_of_type(s.drop_first(), t);
        assert forall|j: int| 1 <= j < s.len() implies s[j] == s.drop_first()[j - 1] by {}
    }
}

/// Consumes the stream until a token of the given type is found, returning the
/// consumed tokens; the final token is included when `include_last` holds.
/// When no token has the type, the whole stream is consumed and returned.
pub fn get_until(stream: &mut VecDeque<Token>, token_type: TokenType, include_last: bool) -> (r:
    Vec<Token>)
    ensures
        ({
            let old_s = tokens_view(old(stream)@);
            match first_of_type(old_s, token_type) {
                Some(k) => tokens_view(r@) == old_s.take(k) + (if include_last {
                    seq![old_s[k]]
                } else {
                    Seq::<TokenView>::empty()
                }) && tokens_view(final(stream)@) == old_s.skip(k + 1),
                None => tokens_view(r@) == old_s && final(stream)@.len() == 0,
            }
        }),
{
    let ghost old_s = tokens_view(stream@);
    proof {
        lemma_first_of_type(old_s, token_type);
    }
    let mut tokens: Vec<Token> = Vec::new();
    let ghost consumed: int = 0;
    assert(tokens_view(tokens@) =~= old_s.take(0));
    assert(tokens_view(stream@) =~= old_s.skip(0));
    loop
        invariant_except_break
            0 <= consumed <= old_s.len(),
            tokens_view(tokens@) == old_s.take(consumed),
            tokens_view(stream@) == old_s.skip(consumed),
            forall|j: int| 0 <= j < consumed ==> old_s[j].token_type != token_type,
        ensures
            match first_of_type(old_s, token_type) {
                Some(k) => tokens_view(tokens@) == old_s.take(k) + (if include_last {
                    seq![old_s[k]]
                } else {
                    Seq::<TokenView>::empty()
                }) && tokens_view(stream@) == old_s.skip(k + 1),
                None => tokens_view(tokens@) == old_s && stream@.len() == 0,
            },
        decreases old_s.len() - consumed,
    {
        let ghost before = stream@;
        assert(tokens_view(before).len() == before.len());
        assert(tokens_view(before) == old_s.skip(consumed));
        match stream.pop_front() {
            Some(token) => {
                assert(tokens_view(before)[0] == token@);
                assert(old_s[consumed] == token@) by {
                    assert(old_s.skip(consumed)[0] == old_s[consumed]);
                }
                assert forall|j: int| 0 <= j < tokens_view(stream@).len() implies tokens_view(stream@)[j]
                    == old_s.skip(consumed + 1)[j] by {
                    assert(stream@[j] == before[j + 1]);
                    assert(tokens_view(before)[j + 1] == old_s.skip(consumed)[j + 1]);
                }
                assert(tokens_view(stream@) =~= old_s.skip(consumed + 1));
                let is_end_token = token.token_type == token_type;
                let ghost tv = token@;
                let ghost prev = tokens@;
                if !is_end_token || include_last {
                    tokens.push(token);
                    assert(tokens_view(tokens@) =~= tokens_view(prev).push(tv));
                }
                if is_end_token {
                    proof {
                        lemma_first_of_type(old_s, token_type);
                        if include_last {
                            assert(tokens_view(tokens@) =~= old_s.take(consumed) + seq![old_s[consumed]]);
                        } else {
                            assert(tokens_view(tokens@) =~= old_s.take(consumed) + Seq::<TokenView>::empty());
                        }
                    }
                    break;
                }
                proof {
                    consumed = consumed + 1;
                }
                assert(tokens_view(tokens@) =~= old_s.take(consumed));
            },
            None => {
                assert(old_s.skip(consumed).len() == 0);
                assert(consumed == old_s.len());
                assert(old_s.take(consumed) =~= old_s);
                proof {
                    lemma_first_of_type(old_s, token_type);
                }
                break;
            },
        }
    }
    tokens
}

} // verus!
