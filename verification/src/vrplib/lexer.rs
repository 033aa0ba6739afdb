//! Turning the lines of a VRPLib file into tokens.
use vstd::prelude::*;

use super::token::{SpecToken, Token, TokenError, tokens_view};
use crate::text::{
    chars_of, find_char, first_index_of, is_whitespace, lemma_first_index_exact, lemma_trim_space_after,
    lemma_trim_space_before, range_eq, split_whitespace_range, string_of_range,
    strings_view, trim, trim_range, words,
};

verus! {

pub open spec fn name_key() -> Seq<char> {
    seq!['N', 'A', 'M', 'E']
}

pub open spec fn comment_key() -> Seq<char> {
    seq!['C', 'O', 'M', 'M', 'E', 'N', 'T']
}

pub open spec fn type_key() -> Seq<char> {
    seq!['T', 'Y', 'P', 'E']
}

pub open spec fn dimension_key() -> Seq<char> {
    seq!['D', 'I', 'M', 'E', 'N', 'S', 'I', 'O', 'N']
}

pub open spec fn edge_weight_type_key() -> Seq<char> {
    seq!['E', 'D', 'G', 'E', '_', 'W', 'E', 'I', 'G', 'H', 'T', '_', 'T', 'Y', 'P', 'E']
}

pub open spec fn edge_weight_format_key() -> Seq<char> {
    seq!['E', 'D', 'G', 'E', '_', 'W', 'E', 'I', 'G', 'H', 'T', '_', 'F', 'O', 'R', 'M', 'A', 'T']
}

pub open spec fn node_coord_type_key() -> Seq<char> {
    seq!['N', 'O', 'D', 'E', '_', 'C', 'O', 'O', 'R', 'D', '_', 'T', 'Y', 'P', 'E']
}

pub open spec fn capacity_key() -> Seq<char> {
    seq!['C', 'A', 'P', 'A', 'C', 'I', 'T', 'Y']
}

pub open spec fn edge_weight_section_word() -> Seq<char> {
    seq!['E', 'D', 'G', 'E', '_', 'W', 'E', 'I', 'G', 'H', 'T', '_', 'S', 'E', 'C', 'T', 'I', 'O', 'N']
}

pub open spec fn node_coord_section_word() -> Seq<char> {
    seq!['N', 'O', 'D', 'E', '_', 'C', 'O', 'O', 'R', 'D', '_', 'S', 'E', 'C', 'T', 'I', 'O', 'N']
}

pub open spec fn demand_section_word() -> Seq<char> {
    seq!['D', 'E', 'M', 'A', 'N', 'D', '_', 'S', 'E', 'C', 'T', 'I', 'O', 'N']
}

pub open spec fn depot_section_word() -> Seq<char> {
    seq!['D', 'E', 'P', 'O', 'T', '_', 'S', 'E', 'C', 'T', 'I', 'O', 'N']
}

/// The token of one line, or the (trimmed) unknown key that stops it.
///
/// A line with a `:` is a header field: the text before the first `:`,
/// trimmed, is the key, and the text after it, trimmed, the value. Any other
/// line, trimmed, is a section keyword, the end marker `-1` or `EOF`, or else
/// a row of whitespace-separated data words.
pub open spec fn spec_tokenize(line: Seq<char>) -> Result<SpecToken, Seq<char>> {
    match first_index_of(line, ':') {
        Some(p) => {
            let key = trim(line.take(p));
            let value = trim(line.skip(p + 1));
            if key == name_key() {
                Ok(SpecToken::Name(value))
            } else if key == comment_key() {
                Ok(SpecToken::Comment(value))
            } else if key == type_key() {
                Ok(SpecToken::Type(value))
            } else if key == dimension_key() {
                Ok(SpecToken::Dimension(value))
            } else if key == edge_weight_type_key() {
                Ok(SpecToken::EdgeWeightType(value))
            } else if key == edge_weight_format_key() {
                Ok(SpecToken::EdgeWeightFormat(value))
            } else if key == node_coord_type_key() {
                Ok(SpecToken::NodeCoordType(value))
            } else if key == capacity_key() {
                Ok(SpecToken::Capacity(value))
            } else {
                Err(key)
            }
        },
        None => {
            let t = trim(line);
            if t == edge_weight_section_word() {
                Ok(SpecToken::EdgeWeightSection)
            } else if t == node_coord_section_word() {
                Ok(SpecToken::NodeCoordSection)
            } else if t == demand_section_word() {
                Ok(SpecToken::DemandSection)
            } else if t == depot_section_word() {
                Ok(SpecToken::DepotSection)
            } else if t == seq!['-', '1'] || t == seq!['E', 'O', 'F'] {
                Ok(SpecToken::Eof)
            } else {
                Ok(SpecToken::Data(words(t)))
            }
        },
    }
}

/// Whether a token result is the one that `spec_tokenize` gives for `line`.
pub open spec fn tokenized_as(line: Seq<char>, r: Result<Token, TokenError>) -> bool {
    match r {
        Ok(t) => spec_tokenize(line) == Ok::<SpecToken, Seq<char>>(t@),
        Err(TokenError::UnknownKey(k)) => spec_tokenize(line) == Err::<SpecToken, Seq<char>>(k@),
    }
}

/// Reads one line of a VRPLib file as a token.
pub fn tokenize(line: &str) -> (r: Result<Token, TokenError>)
    ensures
        tokenized_as(line@, r),
{
    let v = chars_of(line);
    let n = v.len();
    match find_char(&v, ':') {
        Some(p) => {
            let (ka, kb) = trim_range(&v, 0, p);
            let (va, vb) = trim_range(&v, p + 1, n);
            proof {
                assert(line@.take(p as int) =~= v@.subrange(0, p as int));
                assert(line@.skip(p + 1) =~= v@.subrange(p + 1, n as int));
            }
            let value = string_of_range(&v, va, vb);
            if range_eq(&v, ka, kb, &['N', 'A', 'M', 'E']) {
                Ok(Token::Name(value))
            } else if range_eq(&v, ka, kb, &['C', 'O', 'M', 'M', 'E', 'N', 'T']) {
                Ok(Token::Comment(value))
            } else if range_eq(&v, ka, kb, &['T', 'Y', 'P', 'E']) {
                Ok(Token::Type(value))
            } else if range_eq(&v, ka, kb, &['D', 'I', 'M', 'E', 'N', 'S', 'I', 'O', 'N']) {
                Ok(Token::Dimension(value))
            } else if range_eq(
                &v,
                ka,
                kb,
                &['E', 'D', 'G', 'E', '_', 'W', 'E', 'I', 'G', 'H', 'T', '_', 'T', 'Y', 'P', 'E'],
            ) {
                Ok(Token::EdgeWeightType(value))
            } else if range_eq(
                &v,
                ka,
                kb,
                &[
                    'E', 'D', 'G', 'E', '_', 'W', 'E', 'I', 'G', 'H', 'T', '_', 'F', 'O', 'R', 'M',
                    'A', 'T',
                ],
            ) {
                Ok(Token::EdgeWeightFormat(value))
            } else if range_eq(
                &v,
                ka,
                kb,
                &['N', 'O', 'D', 'E', '_', 'C', 'O', 'O', 'R', 'D', '_', 'T', 'Y', 'P', 'E'],
            ) {
                Ok(Token::NodeCoordType(value))
            } else if range_eq(&v, ka, kb, &['C', 'A', 'P', 'A', 'C', 'I', 'T', 'Y']) {
                Ok(Token::Capacity(value))
            } else {
                Err(TokenError::UnknownKey(string_of_range(&v, ka, kb)))
            }
        },
        None => {
            let (a, b) = trim_range(&v, 0, n);
            proof {
                assert(line@ =~= v@.subrange(0, n as int));
            }
            if range_eq(
                &v,
                a,
                b,
                &[
                    'E', 'D', 'G', 'E', '_', 'W', 'E', 'I', 'G', 'H', 'T', '_', 'S', 'E', 'C', 'T',
                    'I', 'O', 'N',
                ],
            ) {
                Ok(Token::EdgeWeightSection)
            } else if range_eq(
                &v,
                a,
                b,
                &[
                    'N', 'O', 'D', 'E', '_', 'C', 'O', 'O', 'R', 'D', '_', 'S', 'E', 'C', 'T', 'I',
                    'O', 'N',
                ],
            ) {
                Ok(Token::NodeCoordSection)
            } else if range_eq(
                &v,
                a,
                b,
                &['D', 'E', 'M', 'A', 'N', 'D', '_', 'S', 'E', 'C', 'T', 'I', 'O', 'N'],
            ) {
                Ok(Token::DemandSection)
            } else if range_eq(
                &v,
                a,
                b,
                &['D', 'E', 'P', 'O', 'T', '_', 'S', 'E', 'C', 'T', 'I', 'O', 'N'],
            ) {
                Ok(Token::DepotSection)
            } else if range_eq(&v, a, b, &['-', '1']) || range_eq(&v, a, b, &['E', 'O', 'F']) {
                Ok(Token::Eof)
            } else {
                let data = split_whitespace_range(&v, a, b);
                Ok(Token::Data(data))
            }
        },
    }
}

/// The tokens of a sequence of lines, or the first unknown key.
pub open spec fn spec_tokenize_lines(lines: Seq<Seq<char>>) -> Result<Seq<SpecToken>, Seq<char>>
    decreases lines.len(),
{
    if lines.len() == 0 {
        Ok(Seq::empty())
    } else {
        match spec_tokenize_lines(lines.drop_last()) {
            Err(k) => Err(k),
            Ok(ts) => match spec_tokenize(lines.last()) {
                Err(k) => Err(k),
                Ok(t) => Ok(ts.push(t)),
            },
        }
    }
}

/// Reads each line as a token, in order, stopping at the first line that
/// cannot be one.
pub fn tokenize_lines(lines: &Vec<String>) -> (r: Result<Vec<Token>, TokenError>)
    ensures
        match r {
            Ok(ts) => spec_tokenize_lines(strings_view(lines@)) == Ok::<
                Seq<SpecToken>,
                Seq<char>,
            >(tokens_view(ts@)),
            Err(TokenError::UnknownKey(k)) => spec_tokenize_lines(strings_view(lines@)) == Err::<
                Seq<SpecToken>,
                Seq<char>,
            >(k@),
        },
{
    let mut tokens: Vec<Token> = Vec::new();
    let mut i: usize = 0;
    let ghost ls = strings_view(lines@);
    proof {
        assert(ls.take(0) =~= Seq::<Seq<char>>::empty());
        assert(tokens_view(tokens@) =~= Seq::<SpecToken>::empty());
    }
    while i < lines.len()
        invariant
            i <= lines.len(),
            ls == strings_view(lines@),
            spec_tokenize_lines(ls.take(i as int)) == Ok::<Seq<SpecToken>, Seq<char>>(
                tokens_view(tokens@),
            ),
        decreases lines.len() - i,
    {
        let t = tokenize(lines[i].as_str());
        proof {
            assert(ls.take(i + 1).drop_last() =~= ls.take(i as int));
            assert(ls.take(i + 1).last() == lines@[i as int]@);
        }
        match t {
            Ok(tok) => {
                let ghost old_tokens = tokens@;
                tokens.push(tok);
                proof {
                    assert(tokens_view(tokens@) =~= tokens_view(old_tokens).push(tokens@.last()@));
                }
            },
            Err(e) => {
                proof {
                    lemma_tokenize_lines_error(ls, i as int);
                }
                return Err(e);
            },
        }
        i = i + 1;
    }
    proof {
        assert(ls.take(i as int) =~= ls);
    }
    Ok(tokens)
}

proof fn lemma_tokenize_lines_error(ls: Seq<Seq<char>>, i: int)
    requires
        0 <= i < ls.len(),
        spec_tokenize_lines(ls.take(i + 1)) is Err,
    ensures
        spec_tokenize_lines(ls) == spec_tokenize_lines(ls.take(i + 1)),
    decreases ls.len() - i,
{
    if i + 1 == ls.len() {
        assert(ls.take(i + 1) =~= ls);
    } else {
        assert(ls.drop_last().take(i + 1) =~= ls.take(i + 1));
        lemma_tokenize_lines_error(ls.drop_last(), i);
    }
}

/// The header line `KEY : value`.
pub open spec fn header_line(key: Seq<char>, value: Seq<char>) -> Seq<char> {
    key + seq![' ', ':', ' '] + value
}

/// A key without `:` and without whitespace at its ends.
pub open spec fn is_plain_key(key: Seq<char>) -> bool {
    &&& key.len() > 0
    &&& forall|k: int| 0 <= k < key.len() ==> #[trigger] key[k] != ':'
    &&& !is_whitespace(key[0])
    &&& !is_whitespace(key.last())
}

proof fn lemma_header_split(key: Seq<char>, value: Seq<char>)
    requires
        is_plain_key(key),
        trim(value) == value,
    ensures
        first_index_of(header_line(key, value), ':') == Some(key.len() + 1int),
        trim(header_line(key, value).take(key.len() + 1int)) == key,
        trim(header_line(key, value).skip(key.len() + 2int)) == value,
{
    let line = header_line(key, value);
    let p: int = key.len() + 1int;
    assert forall|k: int| 0 <= k < p implies #[trigger] line[k] != ':' by {
        if k < key.len() {
            assert(line[k] == key[k]);
        }
    }
    assert(line[p] == ':');
    lemma_first_index_exact(line, ':', p);
    assert(line.take(p) =~= key + seq![' ']);
    lemma_trim_space_after(key);
    assert(line.skip(p + 1) =~= seq![' '] + value);
    lemma_trim_space_before(value);
}

proof fn lemma_keys_are_plain()
    ensures
        is_plain_key(name_key()),
        is_plain_key(comment_key()),
        is_plain_key(type_key()),
        is_plain_key(dimension_key()),
        is_plain_key(edge_weight_type_key()),
        is_plain_key(edge_weight_format_key()),
        is_plain_key(node_coord_type_key()),
        is_plain_key(capacity_key()),
{
}

/// A header line written as `KEY : value`, with a known key and a value
/// without whitespace at its ends, reads back as the field with that value.
pub proof fn lemma_header_round_trip(value: Seq<char>)
    requires
        trim(value) == value,
    ensures
        spec_tokenize(header_line(name_key(), value)) == Ok::<SpecToken, Seq<char>>(SpecToken::Name(value)),
        spec_tokenize(header_line(comment_key(), value)) == Ok::<SpecToken, Seq<char>>(
            SpecToken::Comment(value),
        ),
        spec_tokenize(header_line(type_key(), value)) == Ok::<SpecToken, Seq<char>>(SpecToken::Type(value)),
        spec_tokenize(header_line(dimension_key(), value)) == Ok::<SpecToken, Seq<char>>(
            SpecToken::Dimension(value),
        ),
        spec_tokenize(header_line(edge_weight_type_key(), value)) == Ok::<SpecToken, Seq<char>>(
            SpecToken::EdgeWeightType(value),
        ),
        spec_tokenize(header_line(edge_weight_format_key(), value)) == Ok::<SpecToken, Seq<char>>(
            SpecToken::EdgeWeightFormat(value),
        ),
        spec_tokenize(header_line(node_coord_type_key(), value)) == Ok::<SpecToken, Seq<char>>(
            SpecToken::NodeCoordType(value),
        ),
        spec_tokenize(header_line(capacity_key(), value)) == Ok::<SpecToken, Seq<char>>(
            SpecToken::Capacity(value),
        ),
{
    lemma_keys_are_plain();
    lemma_header_split(name_key(), value);
    lemma_header_split(comment_key(), value);
    lemma_header_split(type_key(), value);
    lemma_header_split(dimension_key(), value);
    lemma_header_split(edge_weight_type_key(), value);
    lemma_header_split(edge_weight_format_key(), value);
    lemma_header_split(node_coord_type_key(), value);
    lemma_header_split(capacity_key(), value);
    assert(type_key()[0] != name_key()[0]);
    assert(capacity_key()[1] != comment_key()[1]);
}

} // verus!
