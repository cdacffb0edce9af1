//! The naming convention between a locale key and its English translation:
//! the English text is the key, with each `{name}` written `%{name}`.

use crate::locale_file_parser::{table_get_index, table_len, LocalizedTexts};
use crate::locale_key_collector::{KeyUsage, LocaleKey};
use crate::rules::{report_all, Diagnostics, Finding, Rule};
use vstd::prelude::*;

verus! {

/// A piece of a locale key.
#[derive(Debug, PartialEq, Eq)]
pub enum LocaleToken<'token> {
    /// It is not surrounded by a pair of braces
    WithoutBrace(&'token str),
    /// It is surrounded by a pair of braces
    WithinBrace(&'token str),
}

/// The text of a locale token, and whether braces surrounded it.
pub enum TokenModel {
    WithoutBrace(Seq<char>),
    WithinBrace(Seq<char>),
}

impl<'token> View for LocaleToken<'token> {
    type V = TokenModel;

    open spec fn view(&self) -> TokenModel {
        match self {
            LocaleToken::WithoutBrace(s) => TokenModel::WithoutBrace(s@),
            LocaleToken::WithinBrace(s) => TokenModel::WithinBrace(s@),
        }
    }
}

/// The position of the first `c` at or after `i`.
pub open spec fn char_index_from(s: Seq<char>, c: char, i: int) -> Option<int>
    decreases s.len() - i,
{
    if i < 0 || i >= s.len() {
        None
    } else if s[i] == c {
        Some(i)
    } else {
        char_index_from(s, c, i + 1)
    }
}

/// `char_index_from` finds the first `c` at or after `i`.
pub proof fn lemma_char_index_from(s: Seq<char>, c: char, i: int)
    requires
        0 <= i,
    ensures
        char_index_from(s, c, i) matches Some(j) ==> i <= j < s.len() && s[j] == c
            && forall|m: int| i <= m < j ==> s[m] != c,
        char_index_from(s, c, i) is None ==> forall|m: int| i <= m < s.len() ==> s[m] != c,
    decreases s.len() - i,
{
    if i < s.len() && s[i] != c {
        lemma_char_index_from(s, c, i + 1);
    }
}

/// The tokens of `s[start..]`. The next `{` and the first `}` after it make a
/// pair, whose inside is one token, and the text before the `{`, if any, is
/// another. With no such pair left, the rest is one token.
pub open spec fn tokens_from(s: Seq<char>, start: int) -> Seq<TokenModel>
    decreases s.len() - start via tokens_from_decreases
{
    if start < 0 || start >= s.len() {
        Seq::empty()
    } else {
        match char_index_from(s, '{', start) {
            None => seq![TokenModel::WithoutBrace(s.subrange(start, s.len() as int))],
            Some(l) => match char_index_from(s, '}', l) {
                None => seq![TokenModel::WithoutBrace(s.subrange(start, s.len() as int))],
                Some(r) => {
                    let before = if l > start {
                        seq![TokenModel::WithoutBrace(s.subrange(start, l))]
                    } else {
                        Seq::empty()
                    };
                    before + seq![TokenModel::WithinBrace(s.subrange(l + 1, r))] + tokens_from(s, r + 1)
                },
            },
        }
    }
}

#[via_fn]
proof fn tokens_from_decreases(s: Seq<char>, start: int) {
    if 0 <= start < s.len() {
        lemma_char_index_from(s, '{', start);
        if let Some(l) = char_index_from(s, '{', start) {
            lemma_char_index_from(s, '}', l);
        }
    }
}

/// The tokens of a locale key.
pub open spec fn tokenize(s: Seq<char>) -> Seq<TokenModel> {
    tokens_from(s, 0)
}

/// Key parser.
#[derive(Debug, PartialEq, Eq)]
pub struct LocaleKeyParser<'input> {
    /// tokens
    pub tokens: Vec<LocaleToken<'input>>,
}

/// The position of the first `c` at or after `from`.
fn find_char(s: &str, c: char, from: usize) -> (r: Option<usize>)
    requires
        from <= s@.len(),
    ensures
        r matches Some(i) ==> char_index_from(s@, c, from as int) == Some(i as int),
        r is None ==> char_index_from(s@, c, from as int) is None,
{
    let len = s.unicode_len();
    let mut i = from;
    while i < len
        invariant
            from <= i <= len,
            len == s@.len(),
            char_index_from(s@, c, from as int) == char_index_from(s@, c, i as int),
        decreases len - i,
    {
        if s.get_char(i) == c {
            return Some(i);
        }
        i += 1;
    }
    None
}

impl<'input> LocaleKeyParser<'input> {
    /// The tokens parsed so far.
    pub open spec fn view(&self) -> Seq<TokenModel> {
        self.tokens@.map_values(|t: LocaleToken<'input>| t@)
    }

    /// Create a parser with nothing.
    pub fn new() -> (r: Self)
        ensures
            r@ == Seq::<TokenModel>::empty(),
    {
        let r = Self { tokens: Vec::new() };
        assert(r@ =~= Seq::<TokenModel>::empty());
        r
    }

    /// Accesses the parsed tokens.
    pub fn tokens(&self) -> (r: &[LocaleToken<'input>])
        ensures
            r@ == self.tokens@,
    {
        self.tokens.as_slice()
    }

    /// Parses the `input`, appends the parsed tokens to `self`.
    pub fn parse(&mut self, input: &'input str)
        ensures
            final(self)@ == old(self)@ + tokenize(input@),
    {
        let len = input.unicode_len();
        let mut start_offset: usize = 0;
        while start_offset < len
            invariant
                start_offset <= len,
                len == input@.len(),
                self@ + tokens_from(input@, start_offset as int) == old(self)@ + tokenize(input@),
            decreases len - start_offset,
        {
            let ghost s = input@;
            let ghost before = self@;
            proof {
                lemma_char_index_from(s, '{', start_offset as int);
            }
            match find_char(input, '{', start_offset) {
                None => {
                    self.tokens.push(LocaleToken::WithoutBrace(input.substring_char(start_offset, len)));
                    assert(self@ =~= before + tokens_from(s, start_offset as int));
                    return;
                },
                Some(left_brace_location) => {
                    proof {
                        lemma_char_index_from(s, '}', left_brace_location as int);
                    }
                    match find_char(input, '}', left_brace_location) {
                        None => {
                            self.tokens.push(LocaleToken::WithoutBrace(input.substring_char(start_offset, len)));
                            assert(self@ =~= before + tokens_from(s, start_offset as int));
                            return;
                        },
                        Some(right_brace_location) => {
                            if left_brace_location != start_offset {
                                self.tokens.push(
                                    LocaleToken::WithoutBrace(input.substring_char(start_offset, left_brace_location)),
                                );
                            }
                            self.tokens.push(
                                LocaleToken::WithinBrace(input.substring_char(left_brace_location + 1, right_brace_location)),
                            );
                            assert(self@ + tokens_from(s, right_brace_location + 1) =~= before + tokens_from(s, start_offset as int));
                            start_offset = right_brace_location + 1;
                        },
                    }
                },
            }
        }
        assert(self@ =~= self@ + tokens_from(input@, start_offset as int));
    }
}

/// The text that a token stands for in the English translation: braces are
/// written `%{...}`, the rest as it is.
pub open spec fn token_text(t: TokenModel) -> Seq<char> {
    match t {
        TokenModel::WithoutBrace(s) => s,
        TokenModel::WithinBrace(s) => seq!['%', '{'] + s + seq!['}'],
    }
}

/// The English translation that a sequence of tokens stands for.
pub open spec fn expected_en(ts: Seq<TokenModel>) -> Seq<char>
    decreases ts.len(),
{
    if ts.len() == 0 {
        Seq::empty()
    } else {
        expected_en(ts.drop_last()) + token_text(ts.last())
    }
}

/// Convert a locale key to its English translation by prepending a `%` to
/// the tokens surrounded by `{}`.
pub fn key_to_en(parser: &LocaleKeyParser<'_>) -> (r: String)
    ensures
        r@ == expected_en(parser@),
{
    let mut ret = String::new();
    let tokens = parser.tokens();
    let mut i: usize = 0;
    while i < tokens.len()
        invariant
            i <= tokens.len(),
            tokens@ == parser.tokens@,
            ret@ == expected_en(parser@.take(i as int)),
        decreases tokens.len() - i,
    {
        proof {
            reveal_strlit("%{");
            reveal_strlit("}");
        }
        match tokens[i] {
            LocaleToken::WithinBrace(s) => {
                ret.append("%{");
                ret.append(s);
                ret.append("}");
            },
            LocaleToken::WithoutBrace(s) => {
                ret.append(s);
            },
        }
        assert(parser@.take(i + 1).drop_last() =~= parser@.take(i as int));
        i += 1;
    }
    assert(parser@.take(i as int) =~= parser@);
    ret
}

/// The message for a key without an English translation.
pub open spec fn missing_en_msg() -> Seq<char> {
    "Missing English translation"@
}

/// A finding for each key whose English translation is present and differs
/// from the one that the key stands for, in table order.
pub open spec fn mismatch_findings(es: Seq<(Seq<char>, Option<Seq<char>>)>) -> Seq<Finding>
    decreases es.len(),
{
    if es.len() == 0 {
        Seq::empty()
    } else {
        let rest = mismatch_findings(es.drop_last());
        match es.last().1 {
            Some(en) => if en != expected_en(tokenize(es.last().0)) {
                rest.push((es.last().0, None))
            } else {
                rest
            },
            None => rest,
        }
    }
}

/// The position of the first entry at or after `i` without an English
/// translation, or the length.
pub open spec fn first_missing_en_from(es: Seq<(Seq<char>, Option<Seq<char>>)>, i: int) -> int
    decreases es.len() - i,
{
    if i < 0 || i >= es.len() {
        es.len() as int
    } else if es[i].1 is None {
        i
    } else {
        first_missing_en_from(es, i + 1)
    }
}

/// The findings of the rule. The keys before the first one without an English
/// translation are checked against the convention; that key is reported as
/// missing its translation, and the keys after it are not checked at all.
pub open spec fn key_eng_findings(es: Seq<(Seq<char>, Option<Seq<char>>)>) -> Seq<Finding> {
    let n = first_missing_en_from(es, 0);
    if n < es.len() {
        mismatch_findings(es.take(n)).push((es[n].0, Some(missing_en_msg())))
    } else {
        mismatch_findings(es)
    }
}

/// A rule that enforces a locale's key matches its English translation.
///
/// This is not requested by rust-i18n (the i18n framework in use), it is
/// simply a convention.
#[derive(Debug, Clone, Copy, PartialEq, Eq)]
pub struct KeyEngMatches;

impl Rule for KeyEngMatches {
    open spec fn spec_name() -> Seq<char> {
        "KeyEngMatches"@
    }

    open spec fn findings(texts: Seq<(Seq<char>, Option<Seq<char>>)>, usages: Seq<KeyUsage>) -> Seq<Finding> {
        key_eng_findings(texts)
    }

    fn name() -> (r: &'static str) {
        "KeyEngMatches"
    }

    fn check(&self, localized_texts: &LocalizedTexts, _locale_keys: &[LocaleKey], errors: &mut Diagnostics) {
        let ghost es = localized_texts@;
        let n = table_len(&localized_texts.texts);
        let mut i: usize = 0;
        while i < n
            invariant
                i <= n,
                n == es.len(),
                es == localized_texts@,
                errors.wf(),
                first_missing_en_from(es, 0) == first_missing_en_from(es, i as int),
                errors@ == report_all(old(errors)@, Self::spec_name(), mismatch_findings(es.take(i as int))),
            decreases n - i,
        {
            assert(es.take(i + 1).drop_last() =~= es.take(i as int));
            assert(es.take(i + 1).last() == es[i as int]);
            let ghost before = mismatch_findings(es.take(i as int));
            match table_get_index(&localized_texts.texts, i) {
                Some((key, translations)) => {
                    match &translations.en {
                        None => {
                            let ghost d: Finding = (key@, Some(missing_en_msg()));
                            Self::report_error(key.clone(), Some(String::from_str("Missing English translation")), errors);
                            assert(before.push(d).drop_last() =~= before);
                            return;
                        },
                        Some(en) => {
                            let mut parser = LocaleKeyParser::new();
                            parser.parse(key.as_str());
                            let expected = key_to_en(&parser);
                            assert(parser@ =~= tokenize(key@));
                            if !en.eq(&expected) {
                                let ghost d: Finding = (key@, None);
                                Self::report_error(key.clone(), None, errors);
                                assert(before.push(d).drop_last() =~= before);
                            }
                        },
                    }
                },
                None => {},
            }
            i += 1;
        }
        assert(es.take(n as int) =~= es);
    }
}

} // verus!
