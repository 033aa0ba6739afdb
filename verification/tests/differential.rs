//! The library's readers against std's own on many generated inputs.
use vrp_parser::numeric::{parse_u64, parse_usize};
use vrp_parser::text::{chars_of, is_whitespace_char, split_whitespace_range, trim_range};
use vrp_parser::vrplib::lexer::tokenize;
use vrp_parser::vrplib::token::{Token, TokenError};
use vrp_parser::FloatLiteral;

fn all_strings(alphabet: &[char], max_len: usize) -> Vec<String> {
    let mut out = vec![String::new()];
    let mut layer = vec![String::new()];
    for _ in 0..max_len {
        let mut next = vec![];
        for s in &layer {
            for &c in alphabet {
                let mut t = s.clone();
                t.push(c);
                next.push(t);
            }
        }
        out.extend(next.iter().cloned());
        layer = next;
    }
    out
}

struct Lcg(u64);

impl Lcg {
    fn next(&mut self) -> u64 {
        self.0 = self.0.wrapping_mul(6364136223846793005).wrapping_add(1442695040888963407);
        self.0 >> 33
    }
}

#[test]
fn whitespace_agrees_with_char_is_whitespace() {
    for u in 0..=0x10FFFFu32 {
        if let Some(c) = char::from_u32(u) {
            assert_eq!(is_whitespace_char(c), c.is_whitespace(), "{:?}", c);
        }
    }
}

#[test]
fn float_literal_agrees_with_f64_from_str() {
    let alphabet = ['0', '7', '.', 'e', 'E', '+', '-', 'i', 'n', 'N', 'f', 'a', ' '];
    for s in all_strings(&alphabet, 5) {
        assert_eq!(
            FloatLiteral::parse(&s).is_some(),
            s.parse::<f64>().is_ok(),
            "{:?}",
            s
        );
    }
    for s in ["infinity", "INFINITY", "-Infinity", "infinit", "infinityy", "nan.", "1.5e-300"] {
        assert_eq!(FloatLiteral::parse(s).is_some(), s.parse::<f64>().is_ok(), "{:?}", s);
    }
}

#[test]
fn unsigned_parsers_agree_with_from_str() {
    let alphabet = ['0', '1', '9', '+', '-', ' ', 'a'];
    for s in all_strings(&alphabet, 6) {
        assert_eq!(parse_u64(&s), s.parse::<u64>().ok(), "{:?}", s);
        assert_eq!(parse_usize(&s), s.parse::<usize>().ok(), "{:?}", s);
    }
    for s in [
        "18446744073709551615",
        "18446744073709551616",
        "99999999999999999999",
        "+18446744073709551615",
        "00000000000000000000018446744073709551615",
    ] {
        assert_eq!(parse_u64(s), s.parse::<u64>().ok(), "{:?}", s);
    }
}

#[test]
fn trim_and_split_agree_with_str() {
    let alphabet = ['a', 'b', ' ', '\t', '\u{3000}', '\u{85}', ':'];
    for s in all_strings(&alphabet, 6) {
        let v = chars_of(&s);
        let (a, b) = trim_range(&v, 0, v.len());
        let trimmed: String = v[a..b].iter().collect();
        assert_eq!(trimmed, s.trim());
        let words = split_whitespace_range(&v, 0, v.len());
        let expected: Vec<String> = s.split_whitespace().map(|w| w.to_string()).collect();
        assert_eq!(words, expected);
    }
}

fn reference_tokenize(line: &str) -> Result<Token, TokenError> {
    if line.contains(':') {
        let (key, value) = line.split_once(':').unwrap();
        let key = key.trim();
        let value = value.trim().to_string();
        match key {
            "NAME" => Ok(Token::Name(value)),
            "COMMENT" => Ok(Token::Comment(value)),
            "TYPE" => Ok(Token::Type(value)),
            "DIMENSION" => Ok(Token::Dimension(value)),
            "EDGE_WEIGHT_TYPE" => Ok(Token::EdgeWeightType(value)),
            "EDGE_WEIGHT_FORMAT" => Ok(Token::EdgeWeightFormat(value)),
            "NODE_COORD_TYPE" => Ok(Token::NodeCoordType(value)),
            "CAPACITY" => Ok(Token::Capacity(value)),
            _ => Err(TokenError::UnknownKey(key.to_string())),
        }
    } else {
        let line = line.trim();
        match line {
            "EDGE_WEIGHT_SECTION" => Ok(Token::EdgeWeightSection),
            "NODE_COORD_SECTION" => Ok(Token::NodeCoordSection),
            "DEMAND_SECTION" => Ok(Token::DemandSection),
            "DEPOT_SECTION" => Ok(Token::DepotSection),
            "-1" | "EOF" => Ok(Token::Eof),
            _ => Ok(Token::Data(
                line.split_whitespace().map(|x| x.to_string()).collect(),
            )),
        }
    }
}

#[test]
fn vrplib_tokenize_agrees_with_reference_on_generated_lines() {
    let pieces = [
        "NAME", "TYPE", "CAPACITY", "EOF", "-1", "DEPOT_SECTION", "EDGE_WEIGHT_SECTION", ":",
        " ", "\t", "12", "x", "a b", "\u{a0}",
    ];
    let mut rng = Lcg(7);
    for _ in 0..20000 {
        let n = (rng.next() % 6) as usize;
        let mut line = String::new();
        for _ in 0..n {
            line.push_str(pieces[(rng.next() % pieces.len() as u64) as usize]);
        }
        assert_eq!(tokenize(&line), reference_tokenize(&line), "{:?}", line);
    }
}
