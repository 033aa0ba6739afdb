//! Turning the lines of a Solomon file into tokens.
use vstd::prelude::*;

use crate::text::{chars_of, is_whitespace, lemma_trim_end_prefix, trim_start, word_len, range_eq, split_whitespace_range, string_of_range, strings_view, trim, trim_range, words};

verus! {

/// One non-blank line of a Solomon file: the instance name (the first such
/// line), a section keyword, or a row of data words.
#[derive(Debug, PartialEq, Eq)]
pub enum Token {
    InstanceName(String),
    VehicleSection,
    CustomerSection,
    Data(Vec<String>),
}

/// A token, with its texts as character sequences.
pub ghost enum SpecToken {
    InstanceName(Seq<char>),
    VehicleSection,
    CustomerSection,
    Data(Seq<Seq<char>>),
}

impl View for Token {
    type V = SpecToken;

    open spec fn view(&self) -> SpecToken {
        match self {
            Token::InstanceName(s) => SpecToken::InstanceName(s@),
            Token::VehicleSection => SpecToken::VehicleSection,
            Token::CustomerSection => SpecToken::CustomerSection,
            Token::Data(d) => SpecToken::Data(strings_view(d@)),
        }
    }
}

/// The views of a sequence of tokens.
pub open spec fn tokens_view(v: Seq<Token>) -> Seq<SpecToken> {
    v.map_values(|t: Token| t@)
}

pub open spec fn vehicle_word() -> Seq<char> {
    seq!['V', 'E', 'H', 'I', 'C', 'L', 'E']
}

pub open spec fn customer_word() -> Seq<char> {
    seq!['C', 'U', 'S', 'T', 'O', 'M', 'E', 'R']
}

/// The token of a trimmed, non-blank line after the instance name.
pub open spec fn spec_keyword_or_data(t: Seq<char>) -> SpecToken {
    if t == vehicle_word() {
        SpecToken::VehicleSection
    } else if t == customer_word() {
        SpecToken::CustomerSection
    } else {
        SpecToken::Data(words(t))
    }
}

/// The tokens of `lines`, given whether the instance name was already seen:
/// blank lines give none, the first other line gives the name, and each
/// later one a keyword or data.
pub open spec fn spec_tokens_from(lines: Seq<Seq<char>>, name_found: bool) -> Seq<SpecToken>
    decreases lines.len(),
{
    if lines.len() == 0 {
        Seq::empty()
    } else {
        let t = trim(lines[0]);
        let rest = lines.drop_first();
        if t.len() == 0 {
            spec_tokens_from(rest, name_found)
        } else if !name_found {
            seq![SpecToken::InstanceName(t)] + spec_tokens_from(rest, true)
        } else {
            seq![spec_keyword_or_data(t)] + spec_tokens_from(rest, true)
        }
    }
}

/// The tokens of the lines of a Solomon file.
pub open spec fn spec_tokenize(lines: Seq<Seq<char>>) -> Seq<SpecToken> {
    spec_tokens_from(lines, false)
}

/// Reads the lines of a Solomon file as tokens.
pub fn tokenize(lines: &[String]) -> (r: Vec<Token>)
    ensures
        tokens_view(r@) == spec_tokenize(strings_view(lines@)),
{
    let ghost ls = strings_view(lines@);
    let mut tokens: Vec<Token> = Vec::new();
    let mut name_found = false;
    let mut i: usize = 0;
    proof {
        assert(ls.skip(0) =~= ls);
        assert(tokens_view(tokens@) + spec_tokens_from(ls, false) =~= spec_tokens_from(ls, false));
    }
    while i < lines.len()
        invariant
            i <= lines@.len(),
            ls == strings_view(lines@),
            spec_tokenize(ls) == tokens_view(tokens@) + spec_tokens_from(ls.skip(i as int), name_found),
        decreases lines@.len() - i,
    {
        let ghost rest = ls.skip(i as int);
        proof {
            assert(rest[0] == lines@[i as int]@);
            assert(rest.drop_first() =~= ls.skip(i + 1));
        }
        let v = chars_of(lines[i].as_str());
        let (a, b) = trim_range(&v, 0, v.len());
        proof {
            assert(v@.subrange(0, v@.len() as int) =~= v@);
        }
        if a == b {
            i = i + 1;
            continue;
        }
        let ghost old = tokens@;
        let token = if !name_found {
            name_found = true;
            Token::InstanceName(string_of_range(&v, a, b))
        } else if range_eq(&v, a, b, &['V', 'E', 'H', 'I', 'C', 'L', 'E']) {
            Token::VehicleSection
        } else if range_eq(&v, a, b, &['C', 'U', 'S', 'T', 'O', 'M', 'E', 'R']) {
            Token::CustomerSection
        } else {
            Token::Data(split_whitespace_range(&v, a, b))
        };
        tokens.push(token);
        proof {
            assert(tokens_view(tokens@) =~= tokens_view(old).push(tokens@.last()@));
            assert(tokens_view(old) + (seq![tokens@.last()@] + spec_tokens_from(ls.skip(i + 1), true))
                =~= tokens_view(tokens@) + spec_tokens_from(ls.skip(i + 1), true));
        }
        i = i + 1;
    }
    proof {
        assert(ls.skip(i as int) =~= Seq::<Seq<char>>::empty());
        assert(tokens_view(tokens@) + Seq::<SpecToken>::empty() =~= tokens_view(tokens@));
    }
    tokens
}

proof fn lemma_trimmed_starts_with_word(s: Seq<char>)
    requires
        trim(s).len() > 0,
    ensures
        !is_whitespace(trim(s)[0]),
        words(trim(s)).len() > 0,
    decreases s.len(),
{
    let u = trim_start(s);
    lemma_trim_end_prefix(u);
    if s.len() > 0 && is_whitespace(s[0]) {
        lemma_trimmed_starts_with_word(s.drop_first());
    } else {
        assert(u == s);
        assert(trim(s)[0] == s[0]);
    }
    let t = trim(s);
    assert(t[0] == u[0]);
    assert(word_len(t) >= 1);
}

/// No token of a Solomon file is an empty data row: blank lines give no
/// token, and every other line gives the name, a keyword or at least one
/// data word.
pub proof fn lemma_no_empty_data_rows(lines: Seq<Seq<char>>, name_found: bool)
    ensures
        forall|i: int|
            0 <= i < spec_tokens_from(lines, name_found).len() ==> (#[trigger] spec_tokens_from(
                lines,
                name_found,
            )[i] matches SpecToken::Data(w) ==> w.len() > 0),
    decreases lines.len(),
{
    if lines.len() > 0 {
        let t = trim(lines[0]);
        let rest = lines.drop_first();
        if t.len() == 0 {
            lemma_no_empty_data_rows(rest, name_found);
        } else {
            lemma_no_empty_data_rows(rest, true);
            lemma_trimmed_starts_with_word(lines[0]);
            let ts = spec_tokens_from(lines, name_found);
            let tail = spec_tokens_from(rest, true);
            assert forall|i: int| 0 <= i < ts.len() implies (#[trigger] ts[i] matches SpecToken::Data(
                w,
            ) ==> w.len() > 0) by {
                if i > 0 {
                    assert(ts[i] == tail[i - 1]);
                }
            }
        }
    }
}

} // verus!
