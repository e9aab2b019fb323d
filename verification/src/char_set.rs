//! Alphabets: the built-in symbol tables and custom sets given by the user.

use crate::cli::{Casing, CharSetSelection};
use crate::text::{
    join_texts, joined_with, push_char, quote_then, quoted_then, sanitize, sanitized, string_of,
    symbols_of, texts,
};
use vstd::pervasive::unreached;
use std::str::FromStr;
use vstd::array::array_as_slice;
use vstd::prelude::*;
use vstd::string::StringExecFns;

verus! {

pub const LETTERS_L: [char; 26] = [
    'a', 'b', 'c', 'd', 'e', 'f', 'g', 'h', 'i', 'j', 'k', 'l', 'm', 'n', 'o', 'p', 'q', 'r', 's',
    't', 'u', 'v', 'w', 'x', 'y', 'z',
];

pub const LETTERS_U: [char; 26] = [
    'A', 'B', 'C', 'D', 'E', 'F', 'G', 'H', 'I', 'J', 'K', 'L', 'M', 'N', 'O', 'P', 'Q', 'R', 'S',
    'T', 'U', 'V', 'W', 'X', 'Y', 'Z',
];

pub const LETTERS_M: [char; 52] = [
    'a', 'b', 'c', 'd', 'e', 'f', 'g', 'h', 'i', 'j', 'k', 'l', 'm', 'n', 'o', 'p', 'q', 'r', 's',
    't', 'u', 'v', 'w', 'x', 'y', 'z', 'A', 'B', 'C', 'D', 'E', 'F', 'G', 'H', 'I', 'J', 'K', 'L',
    'M', 'N', 'O', 'P', 'Q', 'R', 'S', 'T', 'U', 'V', 'W', 'X', 'Y', 'Z',
];

pub const NUMBERS: [char; 10] = ['0', '1', '2', '3', '4', '5', '6', '7', '8', '9'];

pub const ALPHA_NUMERIC_L: [char; 36] = [
    'a', 'b', 'c', 'd', 'e', 'f', 'g', 'h', 'i', 'j', 'k', 'l', 'm', 'n', 'o', 'p', 'q', 'r', 's',
    't', 'u', 'v', 'w', 'x', 'y', 'z', '0', '1', '2', '3', '4', '5', '6', '7', '8', '9',
];

pub const ALPHA_NUMERIC_U: [char; 36] = [
    'A', 'B', 'C', 'D', 'E', 'F', 'G', 'H', 'I', 'J', 'K', 'L', 'M', 'N', 'O', 'P', 'Q', 'R', 'S',
    'T', 'U', 'V', 'W', 'X', 'Y', 'Z', '0', '1', '2', '3', '4', '5', '6', '7', '8', '9',
];

pub const ALPHA_NUMERIC_M: [char; 62] = [
    'a', 'b', 'c', 'd', 'e', 'f', 'g', 'h', 'i', 'j', 'k', 'l', 'm', 'n', 'o', 'p', 'q', 'r', 's',
    't', 'u', 'v', 'w', 'x', 'y', 'z', 'A', 'B', 'C', 'D', 'E', 'F', 'G', 'H', 'I', 'J', 'K', 'L',
    'M', 'N', 'O', 'P', 'Q', 'R', 'S', 'T', 'U', 'V', 'W', 'X', 'Y', 'Z', '0', '1', '2', '3', '4',
    '5', '6', '7', '8', '9',
];

pub const BASE_16_L: [char; 16] = [
    '0', '1', '2', '3', '4', '5', '6', '7', '8', '9', 'a', 'b', 'c', 'd', 'e', 'f',
];

pub const BASE_16_U: [char; 16] = [
    '0', '1', '2', '3', '4', '5', '6', '7', '8', '9', 'A', 'B', 'C', 'D', 'E', 'F',
];

pub const BASE_64: [char; 64] = [
    'A', 'B', 'C', 'D', 'E', 'F', 'G', 'H', 'I', 'J', 'K', 'L', 'M', 'N', 'O', 'P', 'Q', 'R', 'S',
    'T', 'U', 'V', 'W', 'X', 'Y', 'Z', 'a', 'b', 'c', 'd', 'e', 'f', 'g', 'h', 'i', 'j', 'k', 'l',
    'm', 'n', 'o', 'p', 'q', 'r', 's', 't', 'u', 'v', 'w', 'x', 'y', 'z', '0', '1', '2', '3', '4',
    '5', '6', '7', '8', '9', '-', '_',
];

/// Why a text is refused as a custom set of symbols.
#[derive(Debug, Clone, PartialEq, Eq)]
pub enum ParseCustomCharSetError {
    /// The text holds no symbol: an alphabet has one symbol at least.
    Empty,
    /// These symbols cannot stand in a file name.
    IllegalChars(Vec<char>),
    /// These symbols occur more than once.
    DuplicateChars(Vec<char>),
}

/// The symbols as they are listed to the user: each between single quotes,
/// with a comma and a blank between each two.
pub open spec fn listed(symbols: Seq<char>) -> Seq<char> {
    joined_with(Seq::new(symbols.len(), |k: int| seq!['\'', symbols[k], '\'']), ", "@)
}

/// The symbols as they are listed to the user.
fn list_symbols(symbols: &Vec<char>) -> (list: String)
    ensures
        list@ == listed(symbols@),
{
    let mut parts: Vec<String> = Vec::new();
    let mut at: usize = 0;
    while at < symbols.len()
        invariant
            at <= symbols@.len(),
            parts@.len() == at,
            forall|k: int| 0 <= k < at ==> (#[trigger] parts@[k])@ == seq!['\'', symbols@[k], '\''],
        decreases symbols.len() - at,
    {
        let mut part = String::new();
        push_char(&mut part, '\'');
        push_char(&mut part, symbols[at]);
        push_char(&mut part, '\'');
        assert(part@ =~= seq!['\'', symbols@[at as int], '\'']);
        parts.push(part);
        at = at + 1;
    }
    assert(texts(parts@) =~= Seq::new(symbols@.len(), |k: int| seq!['\'', symbols@[k], '\'']));
    join_texts(&parts, ", ")
}

impl ParseCustomCharSetError {
    /// The refusal as it is shown to the user.
    pub open spec fn text(&self) -> Seq<char> {
        match self {
            ParseCustomCharSetError::Empty => "the custom character set is empty"@,
            ParseCustomCharSetError::IllegalChars(symbols) => {
                "the custom character set contains illegal characters: "@ + listed(symbols@)
            },
            ParseCustomCharSetError::DuplicateChars(symbols) => {
                "the custom character set contains duplicate characters: "@ + listed(symbols@)
            },
        }
    }

    /// The refusal as it is shown to the user.
    pub fn to_string(&self) -> (text: String)
        ensures
            text@ == self.text(),
    {
        match self {
            ParseCustomCharSetError::Empty => "the custom character set is empty".to_owned(),
            ParseCustomCharSetError::IllegalChars(symbols) => {
                let mut text = "the custom character set contains illegal characters: ".to_owned();
                text.append(list_symbols(symbols).as_str());
                text
            },
            ParseCustomCharSetError::DuplicateChars(symbols) => {
                let mut text =
                    "the custom character set contains duplicate characters: ".to_owned();
                text.append(list_symbols(symbols).as_str());
                text
            },
        }
    }
}

/// A symbol is legal when sanitising leaves a file name made of it alone
/// unchanged.
pub open spec fn is_legal_symbol(symbol: char) -> bool {
    sanitized(seq![symbol], false, true) == seq![symbol]
}

/// The symbols of a text that are not legal, in the order of the text.
pub open spec fn illegal_symbols(symbols: Seq<char>) -> Seq<char> {
    symbols.filter(|symbol: char| !is_legal_symbol(symbol))
}

/// `symbol` stands at two places of `symbols`.
pub open spec fn occurs_twice(symbols: Seq<char>, symbol: char) -> bool {
    exists|i: int, j: int|
        #![trigger symbols[i], symbols[j]]
        0 <= i < j < symbols.len() && symbols[i] == symbol && symbols[j] == symbol
}

/// Whether a file name may hold `symbol`.
pub fn is_legal(symbol: char) -> (legal: bool)
    ensures
        legal == is_legal_symbol(symbol),
{
    let mut name = String::new();
    push_char(&mut name, symbol);
    assert(name@ =~= seq![symbol]);
    let clean = sanitize(name.as_str(), false, true);
    clean == name
}

/// Whether `symbol` is among the first `count` of `symbols`.
fn occurs_before(symbols: &Vec<char>, count: usize, symbol: char) -> (found: bool)
    requires
        count <= symbols@.len(),
    ensures
        found == symbols@.take(count as int).contains(symbol),
{
    let mut at: usize = 0;
    while at < count
        invariant
            at <= count <= symbols@.len(),
            forall|k: int| 0 <= k < at ==> symbols@[k] != symbol,
        decreases count - at,
    {
        if symbols[at] == symbol {
            assert(symbols@.take(count as int)[at as int] == symbol);
            return true;
        }
        at = at + 1;
    }
    false
}

/// The symbols that occur more than once in `symbols`, each of them once.
pub fn duplicated_symbols(symbols: &Vec<char>) -> (twice: Vec<char>)
    ensures
        twice@.no_duplicates(),
        forall|symbol: char| twice@.contains(symbol) <==> occurs_twice(symbols@, symbol),
{
    let mut twice: Vec<char> = Vec::new();
    let mut at: usize = 0;
    while at < symbols.len()
        invariant
            at <= symbols@.len(),
            twice@.no_duplicates(),
            forall|symbol: char|
                twice@.contains(symbol) <==> occurs_twice(symbols@.take(at as int), symbol),
        decreases symbols.len() - at,
    {
        let symbol = symbols[at];
        let ghost seen = symbols@.take(at as int);
        let ghost next = symbols@.take(at + 1);
        let ghost found = twice@;
        let earlier = occurs_before(symbols, at, symbol);
        let listed = occurs_before(&twice, twice.len(), symbol);
        assert(twice@.take(twice@.len() as int) =~= twice@);
        if earlier && !listed {
            twice.push(symbol);
        }
        proof {
            assert forall|other: char| twice@.contains(other) <==> occurs_twice(next, other) by {
                if occurs_twice(next, other) {
                    let (i, j) = choose|i: int, j: int|
                        #![trigger next[i], next[j]]
                        0 <= i < j < next.len() && next[i] == other && next[j] == other;
                    if j < at {
                        assert(seen[i] == other && seen[j] == other);
                        assert(occurs_twice(seen, other));
                        assert(found.contains(other));
                        let k = choose|k: int| 0 <= k < found.len() && found[k] == other;
                        assert(twice@[k] == other);
                    } else {
                        assert(other == symbol);
                        assert(seen[i] == symbol);
                        assert(earlier);
                        if listed {
                            let k = choose|k: int| 0 <= k < found.len() && found[k] == other;
                            assert(twice@[k] == other);
                        } else {
                            assert(twice@[twice@.len() - 1] == other);
                        }
                    }
                }
                if twice@.contains(other) {
                    let k = choose|k: int| 0 <= k < twice@.len() && twice@[k] == other;
                    if k < found.len() {
                        assert(found[k] == other);
                        assert(found.contains(other));
                        assert(occurs_twice(seen, other));
                        let (i, j) = choose|i: int, j: int|
                            #![trigger seen[i], seen[j]]
                            0 <= i < j < seen.len() && seen[i] == other && seen[j] == other;
                        assert(next[i] == other && next[j] == other);
                    } else {
                        assert(other == symbol);
                        let i = choose|i: int| 0 <= i < seen.len() && seen[i] == symbol;
                        assert(next[i] == symbol && next[at as int] == symbol);
                    }
                }
            }
        }
        at = at + 1;
    }
    assert(symbols@.take(at as int) =~= symbols@);
    twice
}

/// A set of symbols given by the user. It holds one symbol at least, and no
/// symbol occurs in it twice.
#[derive(Debug, PartialEq, Eq)]
pub struct CustomCharSet {
    chars: Vec<char>,
}

impl View for CustomCharSet {
    type V = Seq<char>;

    closed spec fn view(&self) -> Seq<char> {
        self.chars@
    }
}

impl CustomCharSet {
    #[verifier::type_invariant]
    spec fn well_formed(&self) -> bool {
        self.chars@.len() >= 1 && self.chars@.no_duplicates()
    }
}

impl CustomCharSet {
    /// Makes a set of `symbols`, given those of them that were found to be
    /// illegal: refused if there is no symbol at all; if there is one,
    /// refused if a symbol is illegal; and if none is, refused if a symbol
    /// occurs twice.
    pub fn from_checked_symbols(symbols: Vec<char>, illegal: Vec<char>) -> (res: Result<
        CustomCharSet,
        ParseCustomCharSetError,
    >)
        ensures
            match res {
                Ok(set) => {
                    &&& symbols@.len() >= 1
                    &&& illegal@.len() == 0
                    &&& symbols@.no_duplicates()
                    &&& set@ == symbols@
                },
                Err(ParseCustomCharSetError::Empty) => symbols@.len() == 0,
                Err(ParseCustomCharSetError::IllegalChars(found)) => symbols@.len() >= 1
                    && illegal@.len() > 0 && found == illegal,
                Err(ParseCustomCharSetError::DuplicateChars(twice)) => {
                    &&& symbols@.len() >= 1
                    &&& illegal@.len() == 0
                    &&& !symbols@.no_duplicates()
                    &&& twice@.no_duplicates()
                    &&& forall|symbol: char|
                        twice@.contains(symbol) <==> occurs_twice(symbols@, symbol)
                },
            },
    {
        if symbols.len() == 0 {
            return Err(ParseCustomCharSetError::Empty);
        }
        if illegal.len() > 0 {
            return Err(ParseCustomCharSetError::IllegalChars(illegal));
        }
        let twice = duplicated_symbols(&symbols);
        if twice.len() > 0 {
            proof {
                assert(twice@.contains(twice@[0]));
                assert(occurs_twice(symbols@, twice@[0]));
            }
            return Err(ParseCustomCharSetError::DuplicateChars(twice));
        }
        proof {
            assert forall|i: int, j: int|
                0 <= i < symbols@.len() && 0 <= j < symbols@.len() && i != j implies symbols@[i]
                != symbols@[j] by {
                if symbols@[i] == symbols@[j] {
                    let symbol = symbols@[i];
                    if i < j {
                        assert(symbols@[i] == symbol && symbols@[j] == symbol);
                    } else {
                        assert(symbols@[j] == symbol && symbols@[i] == symbol);
                    }
                    assert(occurs_twice(symbols@, symbol));
                    assert(twice@.contains(symbol));
                }
            }
        }
        Ok(CustomCharSet { chars: symbols })
    }

    /// Reads a set of symbols from a text: every symbol of the text, in
    /// order. Refused if the text is empty; if it is not, refused if a symbol
    /// is illegal in a file name; and if none is, refused if a symbol occurs
    /// twice.
    pub fn parse(s: &str) -> (res: Result<CustomCharSet, ParseCustomCharSetError>)
        ensures
            match res {
                Ok(set) => {
                    &&& s@.len() >= 1
                    &&& illegal_symbols(s@).len() == 0
                    &&& s@.no_duplicates()
                    &&& set@ == s@
                },
                Err(ParseCustomCharSetError::Empty) => s@.len() == 0,
                Err(ParseCustomCharSetError::IllegalChars(found)) => s@.len() >= 1 && found@.len()
                    > 0 && found@ == illegal_symbols(s@),
                Err(ParseCustomCharSetError::DuplicateChars(twice)) => {
                    &&& s@.len() >= 1
                    &&& illegal_symbols(s@).len() == 0
                    &&& !s@.no_duplicates()
                    &&& twice@.no_duplicates()
                    &&& forall|symbol: char| twice@.contains(symbol) <==> occurs_twice(s@, symbol)
                },
            },
    {
        let symbols = symbols_of(s);
        let mut illegal: Vec<char> = Vec::new();
        let mut at: usize = 0;
        while at < symbols.len()
            invariant
                at <= symbols@.len(),
                illegal@ == illegal_symbols(symbols@.take(at as int)),
            decreases symbols.len() - at,
        {
            let symbol = symbols[at];
            assert(symbols@.take(at + 1).drop_last() =~= symbols@.take(at as int));
            reveal(Seq::filter);
            if !is_legal(symbol) {
                illegal.push(symbol);
            }
            at = at + 1;
        }
        assert(symbols@.take(at as int) =~= symbols@);
        CustomCharSet::from_checked_symbols(symbols, illegal)
    }
}

impl CustomCharSet {
    /// The symbols of the set in a row.
    pub fn to_string(&self) -> (text: String)
        ensures
            text@ == self@,
    {
        string_of(self.chars.as_slice())
    }
}

impl FromStr for CustomCharSet {
    type Err = ParseCustomCharSetError;

    /// Reads a set of symbols from a text, as `parse` does: every symbol of
    /// the text, in order, unless the text is empty, a symbol is illegal in
    /// a file name or, if none is, a symbol occurs twice.
    fn from_str(s: &str) -> (res: Result<Self, Self::Err>)
        ensures
            match res {
                Ok(set) => {
                    &&& s@.len() >= 1
                    &&& illegal_symbols(s@).len() == 0
                    &&& s@.no_duplicates()
                    &&& set@ == s@
                },
                Err(ParseCustomCharSetError::Empty) => s@.len() == 0,
                Err(ParseCustomCharSetError::IllegalChars(found)) => s@.len() >= 1 && found@.len()
                    > 0 && found@ == illegal_symbols(s@),
                Err(ParseCustomCharSetError::DuplicateChars(twice)) => {
                    &&& s@.len() >= 1
                    &&& illegal_symbols(s@).len() == 0
                    &&& !s@.no_duplicates()
                    &&& twice@.no_duplicates()
                    &&& forall|symbol: char| twice@.contains(symbol) <==> occurs_twice(s@, symbol)
                },
            },
    {
        CustomCharSet::parse(s)
    }
}

impl Clone for CustomCharSet {
    fn clone(&self) -> (copy: Self)
        ensures
            copy@ == self@,
    {
        proof {
            use_type_invariant(self);
        }
        let chars = self.chars.clone();
        assert(chars@ =~= self.chars@);
        CustomCharSet { chars }
    }
}

/// The alphabet that names are drawn from.
#[derive(Debug, Clone, PartialEq, Eq)]
pub enum CharSet {
    Custom(CustomCharSet),
    LettersLower,
    LettersUpper,
    LettersMixed,
    Numbers,
    AlphaNumericLower,
    AlphaNumericUpper,
    AlphaNumericMixed,
    Base16Lower,
    Base16Upper,
    Base64,
}

/// The alphabet that a selection, a custom set and a case stand for
/// together, where they fit: a custom set goes with its own selection and
/// no case; where a family has cases, no case stands for lower case.
pub open spec fn char_set_for(
    selection: CharSetSelection,
    custom: Option<CustomCharSet>,
    case: Option<Casing>,
) -> Option<CharSet> {
    match (selection, custom, case) {
        (CharSetSelection::Custom, Some(set), None) => Some(CharSet::Custom(set)),
        (CharSetSelection::Letters, None, None) => Some(CharSet::LettersLower),
        (CharSetSelection::Letters, None, Some(Casing::Lower)) => Some(CharSet::LettersLower),
        (CharSetSelection::Letters, None, Some(Casing::Upper)) => Some(CharSet::LettersUpper),
        (CharSetSelection::Letters, None, Some(Casing::Mixed)) => Some(CharSet::LettersMixed),
        (CharSetSelection::Numbers, None, None) => Some(CharSet::Numbers),
        (CharSetSelection::AlphaNumeric, None, None) => Some(CharSet::AlphaNumericLower),
        (CharSetSelection::AlphaNumeric, None, Some(Casing::Lower)) => Some(
            CharSet::AlphaNumericLower,
        ),
        (CharSetSelection::AlphaNumeric, None, Some(Casing::Upper)) => Some(
            CharSet::AlphaNumericUpper,
        ),
        (CharSetSelection::AlphaNumeric, None, Some(Casing::Mixed)) => Some(
            CharSet::AlphaNumericMixed,
        ),
        (CharSetSelection::Base16, None, None) => Some(CharSet::Base16Lower),
        (CharSetSelection::Base16, None, Some(Casing::Lower)) => Some(CharSet::Base16Lower),
        (CharSetSelection::Base16, None, Some(Casing::Upper)) => Some(CharSet::Base16Upper),
        (CharSetSelection::Base64, None, None) => Some(CharSet::Base64),
        _ => None,
    }
}

/// Why a selection, a custom set and a case do not fit: a custom set stands
/// beside another selection, or else the selection has no such case.
pub open spec fn misfit_text(
    selection: CharSetSelection,
    custom: Option<CustomCharSet>,
    case: Option<Casing>,
) -> Seq<char> {
    if selection != CharSetSelection::Custom && custom is Some {
        "`--custom-chars` cannot be used unless `--char-set=custom`"@
    } else {
        "the character set "@ + selection.name() + " is incompatible with the case "@ + match case {
            Some(casing) => casing.name(),
            None => Seq::empty(),
        }
    }
}

/// What is said of a selection and a case that do not go together.
fn incompatible(selection: CharSetSelection, case: Casing) -> (message: String)
    ensures
        message@ == "the character set "@ + selection.name() + " is incompatible with the case "@
            + case.name(),
{
    let mut message = "the character set ".to_owned();
    message.append(selection.to_name());
    message.append(" is incompatible with the case ");
    message.append(case.to_name());
    message
}

impl CharSet {
    /// The alphabet for a selection, a custom set and a case, or why they do
    /// not fit. The custom selection comes with its set.
    pub fn try_from(combination: (CharSetSelection, Option<CustomCharSet>, Option<Casing>)) -> (res:
        Result<CharSet, String>)
        requires
            combination.0 == CharSetSelection::Custom ==> combination.1 is Some,
        ensures
            match res {
                Ok(set) => char_set_for(combination.0, combination.1, combination.2) == Some(set),
                Err(message) => {
                    &&& char_set_for(combination.0, combination.1, combination.2) is None
                    &&& message@ == misfit_text(combination.0, combination.1, combination.2)
                },
            },
    {
        let (selection, custom, case) = combination;
        match selection {
            CharSetSelection::Custom => match (custom, case) {
                (Some(set), None) => Ok(CharSet::Custom(set)),
                (_, Some(casing)) => Err(incompatible(selection, casing)),
                (None, None) => unreached(),
            },
            _ => {
                if custom.is_some() {
                    return Err(
                        "`--custom-chars` cannot be used unless `--char-set=custom`".to_owned(),
                    );
                }
                match (selection, case) {
                    (CharSetSelection::Letters, None) => Ok(CharSet::LettersLower),
                    (CharSetSelection::Letters, Some(Casing::Lower)) => Ok(CharSet::LettersLower),
                    (CharSetSelection::Letters, Some(Casing::Upper)) => Ok(CharSet::LettersUpper),
                    (CharSetSelection::Letters, Some(Casing::Mixed)) => Ok(CharSet::LettersMixed),
                    (CharSetSelection::Numbers, None) => Ok(CharSet::Numbers),
                    (CharSetSelection::AlphaNumeric, None) => Ok(CharSet::AlphaNumericLower),
                    (CharSetSelection::AlphaNumeric, Some(Casing::Lower)) => Ok(
                        CharSet::AlphaNumericLower,
                    ),
                    (CharSetSelection::AlphaNumeric, Some(Casing::Upper)) => Ok(
                        CharSet::AlphaNumericUpper,
                    ),
                    (CharSetSelection::AlphaNumeric, Some(Casing::Mixed)) => Ok(
                        CharSet::AlphaNumericMixed,
                    ),
                    (CharSetSelection::Base16, None) => Ok(CharSet::Base16Lower),
                    (CharSetSelection::Base16, Some(Casing::Lower)) => Ok(CharSet::Base16Lower),
                    (CharSetSelection::Base16, Some(Casing::Upper)) => Ok(CharSet::Base16Upper),
                    (CharSetSelection::Base64, None) => Ok(CharSet::Base64),
                    (_, Some(casing)) => Err(incompatible(selection, casing)),
                    (CharSetSelection::Custom, None) => unreached(),
                }
            },
        }
    }

    /// The symbols of the alphabet, in table order.
    pub open spec fn symbols(&self) -> Seq<char> {
        match self {
            CharSet::Custom(set) => set@,
            CharSet::LettersLower => LETTERS_L@,
            CharSet::LettersUpper => LETTERS_U@,
            CharSet::LettersMixed => LETTERS_M@,
            CharSet::Numbers => NUMBERS@,
            CharSet::AlphaNumericLower => ALPHA_NUMERIC_L@,
            CharSet::AlphaNumericUpper => ALPHA_NUMERIC_U@,
            CharSet::AlphaNumericMixed => ALPHA_NUMERIC_M@,
            CharSet::Base16Lower => BASE_16_L@,
            CharSet::Base16Upper => BASE_16_U@,
            CharSet::Base64 => BASE_64@,
        }
    }

    /// The alphabet as it is shown to the user.
    pub open spec fn text(&self) -> Seq<char> {
        match self {
            CharSet::Custom(set) => "Custom("@ + quoted_then(set@, ")"@),
            CharSet::LettersLower => "[a-z]"@,
            CharSet::LettersUpper => "[A-Z]"@,
            CharSet::LettersMixed => "[a-zA-Z]"@,
            CharSet::Numbers => "[0-9]"@,
            CharSet::AlphaNumericLower => "[a-z0-9]"@,
            CharSet::AlphaNumericUpper => "[A-Z0-9]"@,
            CharSet::AlphaNumericMixed => "[a-zA-Z0-9]"@,
            CharSet::Base16Lower => "[0-9a-f]"@,
            CharSet::Base16Upper => "[0-9A-F]"@,
            CharSet::Base64 => "[A-Za-z0-9-_]"@,
        }
    }

    /// The alphabet as it is shown to the user.
    pub fn to_string(&self) -> (text: String)
        ensures
            text@ == self.text(),
    {
        match self {
            CharSet::Custom(set) => {
                let mut text = "Custom(".to_owned();
                text.append(quote_then(set.to_string().as_str(), ")").as_str());
                text
            },
            CharSet::LettersLower => "[a-z]".to_owned(),
            CharSet::LettersUpper => "[A-Z]".to_owned(),
            CharSet::LettersMixed => "[a-zA-Z]".to_owned(),
            CharSet::Numbers => "[0-9]".to_owned(),
            CharSet::AlphaNumericLower => "[a-z0-9]".to_owned(),
            CharSet::AlphaNumericUpper => "[A-Z0-9]".to_owned(),
            CharSet::AlphaNumericMixed => "[a-zA-Z0-9]".to_owned(),
            CharSet::Base16Lower => "[0-9a-f]".to_owned(),
            CharSet::Base16Upper => "[0-9A-F]".to_owned(),
            CharSet::Base64 => "[A-Za-z0-9-_]".to_owned(),
        }
    }

    /// The symbols of the alphabet as a slice. There is one symbol at least,
    /// and no symbol occurs twice.
    pub fn get_char_set(&self) -> (symbols: &[char])
        ensures
            symbols@ == self.symbols(),
            symbols@.len() >= 1,
            symbols@.no_duplicates(),
    {
        match self {
            CharSet::Custom(set) => {
                proof {
                    use_type_invariant(set);
                }
                set.chars.as_slice()
            },
            CharSet::LettersLower => array_as_slice(&LETTERS_L),
            CharSet::LettersUpper => array_as_slice(&LETTERS_U),
            CharSet::LettersMixed => array_as_slice(&LETTERS_M),
            CharSet::Numbers => array_as_slice(&NUMBERS),
            CharSet::AlphaNumericLower => array_as_slice(&ALPHA_NUMERIC_L),
            CharSet::AlphaNumericUpper => array_as_slice(&ALPHA_NUMERIC_U),
            CharSet::AlphaNumericMixed => array_as_slice(&ALPHA_NUMERIC_M),
            CharSet::Base16Lower => array_as_slice(&BASE_16_L),
            CharSet::Base16Upper => array_as_slice(&BASE_16_U),
            CharSet::Base64 => array_as_slice(&BASE_64),
        }
    }

    /// The number of symbols in the alphabet, which is never 0.
    pub fn len(&self) -> (count: usize)
        ensures
            count == self.symbols().len(),
            count >= 1,
    {
        self.get_char_set().len()
    }

    /// The symbol at `index`.
    pub fn index(&self, index: usize) -> (symbol: &char)
        requires
            index < self.symbols().len(),
        ensures
            *symbol == self.symbols()[index as int],
    {
        &self.get_char_set()[index]
    }
}

} // verus!
