//! The fixed phrases of the language and the kind of token that each gives.

use vstd::prelude::*;
use vstd::string::*;

use super::has_prefix_at;
use super::token::TokenKind;

verus! {

/// The number of punctuation phrases.
pub const PUNCTS_LEN: usize = 6;

/// The number of keyword phrases.
pub const KEYWORDS_LEN: usize = 23;

/// The number of type names.
pub const TYPES_LEN: usize = 3;

/// The punctuation phrases, in the order in which the lexer tries them.
pub open spec fn puncts() -> Seq<(&'static str, TokenKind)> {
    seq![
        ("Never tell me the odds!", TokenKind::Mod),
        ("Not to worry, we are still flying half a ship.", TokenKind::Div),
        ("There's too many of them!", TokenKind::Mul),
        ("Proceed with the countdown.", TokenKind::Minus),
        ("Your lightsabers will make a fine addition to my collection.", TokenKind::Plus),
        ("-", TokenKind::Not),
    ]
}

/// The keyword phrases, in the order in which the lexer tries them.
pub open spec fn keywords() -> Seq<(&'static str, TokenKind)> {
    seq![
        ("Execute order", TokenKind::OFnCall),
        ("Order executed", TokenKind::CFnCall),
        ("A long time ago in a", TokenKind::OFnDecl1),
        ("far, far away...", TokenKind::OFnDecl2),
        ("May the force be with you.", TokenKind::CFnDecl),
        ("Do, or do not. There is no try.", TokenKind::If),
        ("These aren't the droids you're looking for.", TokenKind::Else),
        ("You have failed me for the last time.", TokenKind::IfEnd),
        ("I am your father.", TokenKind::Assign),
        ("Judge me by my size, do you ?", TokenKind::Assign),
        ("Who, mesa ?", TokenKind::Assign),
        ("What a piece of junk!", TokenKind::OAssign),
        ("The garbage will do.", TokenKind::CAssign),
        ("I am a big deal in the resistance.", TokenKind::Let),
        ("The force is strong with this one.", TokenKind::Let),
        ("That's one hell of a pilot.", TokenKind::Let),
        ("From a certain point of view.", TokenKind::True),
        ("That's impossible!", TokenKind::False),
        ("Starfield", TokenKind::Variadic),
        ("Hypersignal", TokenKind::OExtrnFn),
        ("Jamsignal", TokenKind::CExtrnFn),
        ("Cargo", TokenKind::OFnParams),
        ("UnloadCargo", TokenKind::CFnParams),
    ]
}

/// The names of the types.
pub open spec fn types() -> Seq<(&'static str, TokenKind)> {
    seq![
        ("Credit", TokenKind::TyInt),
        ("Holotext", TokenKind::TyString),
        ("Signal", TokenKind::TyBool),
    ]
}

/// The number of phrases in all.
pub const PHRASES_LEN: usize = 32;

/// All phrases in the order in which the lexer tries them: punctuation
/// first, then the keywords, then the names of the types.
pub open spec fn phrases() -> Seq<(&'static str, TokenKind)> {
    puncts() + keywords() + types()
}

/// The phrase at place `i` among all phrases.
pub fn phrase(i: usize) -> (r: (&'static str, TokenKind))
    requires
        i < PHRASES_LEN,
    ensures
        r == phrases()[i as int],
        phrases().len() == PHRASES_LEN,
{
    if i < PUNCTS_LEN {
        punct(i)
    } else if i < PUNCTS_LEN + KEYWORDS_LEN {
        keyword(i - PUNCTS_LEN)
    } else {
        type_keyword(i - PUNCTS_LEN - KEYWORDS_LEN)
    }
}

/// The punctuation phrase at place `i`.
pub fn punct(i: usize) -> (r: (&'static str, TokenKind))
    requires
        i < PUNCTS_LEN,
    ensures
        r == puncts()[i as int],
{
    match i {
        0 => ("Never tell me the odds!", TokenKind::Mod),
        1 => ("Not to worry, we are still flying half a ship.", TokenKind::Div),
        2 => ("There's too many of them!", TokenKind::Mul),
        3 => ("Proceed with the countdown.", TokenKind::Minus),
        4 => ("Your lightsabers will make a fine addition to my collection.", TokenKind::Plus),
        _ => ("-", TokenKind::Not),
    }
}

/// The keyword phrase at place `i`.
pub fn keyword(i: usize) -> (r: (&'static str, TokenKind))
    requires
        i < KEYWORDS_LEN,
    ensures
        r == keywords()[i as int],
{
    match i {
        0 => ("Execute order", TokenKind::OFnCall),
        1 => ("Order executed", TokenKind::CFnCall),
        2 => ("A long time ago in a", TokenKind::OFnDecl1),
        3 => ("far, far away...", TokenKind::OFnDecl2),
        4 => ("May the force be with you.", TokenKind::CFnDecl),
        5 => ("Do, or do not. There is no try.", TokenKind::If),
        6 => ("These aren't the droids you're looking for.", TokenKind::Else),
        7 => ("You have failed me for the last time.", TokenKind::IfEnd),
        8 => ("I am your father.", TokenKind::Assign),
        9 => ("Judge me by my size, do you ?", TokenKind::Assign),
        10 => ("Who, mesa ?", TokenKind::Assign),
        11 => ("What a piece of junk!", TokenKind::OAssign),
        12 => ("The garbage will do.", TokenKind::CAssign),
        13 => ("I am a big deal in the resistance.", TokenKind::Let),
        14 => ("The force is strong with this one.", TokenKind::Let),
        15 => ("That's one hell of a pilot.", TokenKind::Let),
        16 => ("From a certain point of view.", TokenKind::True),
        17 => ("That's impossible!", TokenKind::False),
        18 => ("Starfield", TokenKind::Variadic),
        19 => ("Hypersignal", TokenKind::OExtrnFn),
        20 => ("Jamsignal", TokenKind::CExtrnFn),
        21 => ("Cargo", TokenKind::OFnParams),
        _ => ("UnloadCargo", TokenKind::CFnParams),
    }
}

/// The name of the type at place `i`.
pub fn type_keyword(i: usize) -> (r: (&'static str, TokenKind))
    requires
        i < TYPES_LEN,
    ensures
        r == types()[i as int],
{
    match i {
        0 => ("Credit", TokenKind::TyInt),
        1 => ("Holotext", TokenKind::TyString),
        _ => ("Signal", TokenKind::TyBool),
    }
}

/// Whether every phrase of a table holds at least one byte.
pub open spec fn phrases_not_empty(table: Seq<(&'static str, TokenKind)>) -> bool {
    forall|i: int| 0 <= i < table.len() ==> (#[trigger] table[i]).0.spec_bytes().len() > 0
}

/// Every punctuation phrase holds at least one byte.
pub proof fn lemma_puncts_not_empty()
    ensures
        puncts().len() == PUNCTS_LEN,
        phrases_not_empty(puncts()),
{
    reveal_strlit("Never tell me the odds!");
    reveal_strlit("Not to worry, we are still flying half a ship.");
    reveal_strlit("There's too many of them!");
    reveal_strlit("Proceed with the countdown.");
    reveal_strlit("Your lightsabers will make a fine addition to my collection.");
    reveal_strlit("-");
    assert forall|i: int| 0 <= i < puncts().len() implies (#[trigger] puncts()[i]).0.spec_bytes().len() > 0 by {
        lemma_encoding_not_empty(puncts()[i].0@);
    }
}

/// Every keyword phrase holds at least one byte.
pub proof fn lemma_keywords_not_empty()
    ensures
        keywords().len() == KEYWORDS_LEN,
        phrases_not_empty(keywords()),
{
    reveal_strlit("Execute order");
    reveal_strlit("Order executed");
    reveal_strlit("A long time ago in a");
    reveal_strlit("far, far away...");
    reveal_strlit("May the force be with you.");
    reveal_strlit("Do, or do not. There is no try.");
    reveal_strlit("These aren't the droids you're looking for.");
    reveal_strlit("You have failed me for the last time.");
    reveal_strlit("I am your father.");
    reveal_strlit("Judge me by my size, do you ?");
    reveal_strlit("Who, mesa ?");
    reveal_strlit("What a piece of junk!");
    reveal_strlit("The garbage will do.");
    reveal_strlit("I am a big deal in the resistance.");
    reveal_strlit("The force is strong with this one.");
    reveal_strlit("That's one hell of a pilot.");
    reveal_strlit("From a certain point of view.");
    reveal_strlit("That's impossible!");
    reveal_strlit("Starfield");
    reveal_strlit("Hypersignal");
    reveal_strlit("Jamsignal");
    reveal_strlit("Cargo");
    reveal_strlit("UnloadCargo");
    assert forall|i: int| 0 <= i < keywords().len() implies (#[trigger] keywords()[i]).0.spec_bytes().len() > 0 by {
        lemma_encoding_not_empty(keywords()[i].0@);
    }
}

/// Every type name holds at least one byte.
pub proof fn lemma_types_not_empty()
    ensures
        types().len() == TYPES_LEN,
        phrases_not_empty(types()),
{
    reveal_strlit("Credit");
    reveal_strlit("Holotext");
    reveal_strlit("Signal");
    assert forall|i: int| 0 <= i < types().len() implies (#[trigger] types()[i]).0.spec_bytes().len() > 0 by {
        lemma_encoding_not_empty(types()[i].0@);
    }
}

/// Every phrase holds at least one byte.
pub proof fn lemma_phrases_not_empty()
    ensures
        phrases().len() == PHRASES_LEN,
        phrases_not_empty(phrases()),
{
    lemma_puncts_not_empty();
    lemma_keywords_not_empty();
    lemma_types_not_empty();
    assert forall|i: int| 0 <= i < phrases().len() implies (#[trigger] phrases()[i]).0.spec_bytes().len() > 0 by {
        if i < PUNCTS_LEN {
            assert(phrases()[i] == puncts()[i]);
        } else if i < PUNCTS_LEN + KEYWORDS_LEN {
            assert(phrases()[i] == keywords()[i - PUNCTS_LEN]);
        } else {
            assert(phrases()[i] == types()[i - PUNCTS_LEN - KEYWORDS_LEN]);
        }
    }
}

/// The UTF-8 encoding of a text that is not empty is not empty.
pub proof fn lemma_encoding_not_empty(chars: Seq<char>)
    requires
        chars.len() > 0,
    ensures
        vstd::utf8::encode_utf8(chars).len() > 0,
{
    vstd::utf8::encode_utf8_first_scalar(chars);
}

/// Whether the byte `b` stands in `input` at index `at`.
pub open spec fn stands(input: Seq<u8>, at: int, b: u8) -> bool {
    0 <= at < input.len() && input[at] == b
}

/// The bytes that tell the phrase at place `i` from every other phrase,
/// standing in `input` from index `at` on: a few of its first bytes.
pub open spec fn told_by(i: int, input: Seq<u8>, at: int) -> bool {
    if i == 0 {
        stands(input, at + 0, 78u8) && stands(input, at + 1, 101u8)
    } else if i == 1 {
        stands(input, at + 0, 78u8) && stands(input, at + 1, 111u8)
    } else if i == 2 {
        stands(input, at + 0, 84u8) && stands(input, at + 2, 101u8) && stands(input, at + 3, 114u8)
    } else if i == 3 {
        stands(input, at + 0, 80u8)
    } else if i == 4 {
        stands(input, at + 0, 89u8) && stands(input, at + 3, 114u8)
    } else if i == 5 {
        stands(input, at + 0, 45u8)
    } else if i == 6 {
        stands(input, at + 0, 69u8)
    } else if i == 7 {
        stands(input, at + 0, 79u8)
    } else if i == 8 {
        stands(input, at + 0, 65u8)
    } else if i == 9 {
        stands(input, at + 0, 102u8)
    } else if i == 10 {
        stands(input, at + 0, 77u8)
    } else if i == 11 {
        stands(input, at + 0, 68u8)
    } else if i == 12 {
        stands(input, at + 0, 84u8) && stands(input, at + 2, 101u8) && stands(input, at + 3, 115u8)
    } else if i == 13 {
        stands(input, at + 0, 89u8) && stands(input, at + 3, 32u8)
    } else if i == 14 {
        stands(input, at + 0, 73u8) && stands(input, at + 5, 121u8)
    } else if i == 15 {
        stands(input, at + 0, 74u8) && stands(input, at + 1, 117u8)
    } else if i == 16 {
        stands(input, at + 0, 87u8) && stands(input, at + 2, 111u8)
    } else if i == 17 {
        stands(input, at + 0, 87u8) && stands(input, at + 2, 97u8)
    } else if i == 18 {
        stands(input, at + 0, 84u8) && stands(input, at + 2, 101u8) && stands(input, at + 3, 32u8) && stands(input, at + 4, 103u8)
    } else if i == 19 {
        stands(input, at + 0, 73u8) && stands(input, at + 5, 97u8)
    } else if i == 20 {
        stands(input, at + 0, 84u8) && stands(input, at + 2, 101u8) && stands(input, at + 3, 32u8) && stands(input, at + 4, 102u8)
    } else if i == 21 {
        stands(input, at + 0, 84u8) && stands(input, at + 2, 97u8) && stands(input, at + 7, 111u8)
    } else if i == 22 {
        stands(input, at + 0, 70u8)
    } else if i == 23 {
        stands(input, at + 0, 84u8) && stands(input, at + 2, 97u8) && stands(input, at + 7, 105u8)
    } else if i == 24 {
        stands(input, at + 0, 83u8) && stands(input, at + 1, 116u8)
    } else if i == 25 {
        stands(input, at + 0, 72u8) && stands(input, at + 1, 121u8)
    } else if i == 26 {
        stands(input, at + 0, 74u8) && stands(input, at + 1, 97u8)
    } else if i == 27 {
        stands(input, at + 0, 67u8) && stands(input, at + 1, 97u8)
    } else if i == 28 {
        stands(input, at + 0, 85u8)
    } else if i == 29 {
        stands(input, at + 0, 67u8) && stands(input, at + 1, 114u8)
    } else if i == 30 {
        stands(input, at + 0, 72u8) && stands(input, at + 1, 111u8)
    } else if i == 31 {
        stands(input, at + 0, 83u8) && stands(input, at + 1, 105u8)
    } else {
        false
    }
}

/// For a text of ASCII characters, the byte of the input at which it stands
/// is the character of the text at the same place.
pub proof fn lemma_matched_byte(input: Seq<u8>, at: int, s: &str, k: int)
    requires
        has_prefix_at(input, at, s.spec_bytes()),
        vstd::utf8::is_ascii_chars(s@),
        0 <= k < s@.len(),
    ensures
        stands(input, at + k, s@[k] as u8),
{
    vstd::utf8::is_ascii_chars_encode_utf8(s@);
    let sub = input.subrange(at, at + s.spec_bytes().len());
    assert(sub[k] == input[at + k]);
}

/// A punctuation phrase that stands in the input is told by its bytes.
pub proof fn lemma_punct_told(input: Seq<u8>, at: int, i: int)
    requires
        0 <= i < puncts().len(),
        has_prefix_at(input, at, puncts()[i].0.spec_bytes()),
    ensures
        told_by(i + 0, input, at),
{
    if i == 0 {
        reveal_strlit("Never tell me the odds!");
        assert(vstd::utf8::is_ascii_chars("Never tell me the odds!"@));
        lemma_matched_byte(input, at, "Never tell me the odds!", 0);
        lemma_matched_byte(input, at, "Never tell me the odds!", 1);
    } else if i == 1 {
        reveal_strlit("Not to worry, we are still flying half a ship.");
        assert(vstd::utf8::is_ascii_chars("Not to worry, we are still flying half a ship."@));
        lemma_matched_byte(input, at, "Not to worry, we are still flying half a ship.", 0);
        lemma_matched_byte(input, at, "Not to worry, we are still flying half a ship.", 1);
    } else if i == 2 {
        reveal_strlit("There's too many of them!");
        assert(vstd::utf8::is_ascii_chars("There's too many of them!"@));
        lemma_matched_byte(input, at, "There's too many of them!", 0);
        lemma_matched_byte(input, at, "There's too many of them!", 2);
        lemma_matched_byte(input, at, "There's too many of them!", 3);
    } else if i == 3 {
        reveal_strlit("Proceed with the countdown.");
        assert(vstd::utf8::is_ascii_chars("Proceed with the countdown."@));
        lemma_matched_byte(input, at, "Proceed with the countdown.", 0);
    } else if i == 4 {
        reveal_strlit("Your lightsabers will make a fine addition to my collection.");
        assert(vstd::utf8::is_ascii_chars("Your lightsabers will make a fine addition to my collection."@));
        lemma_matched_byte(input, at, "Your lightsabers will make a fine addition to my collection.", 0);
        lemma_matched_byte(input, at, "Your lightsabers will make a fine addition to my collection.", 3);
    } else if i == 5 {
        reveal_strlit("-");
        assert(vstd::utf8::is_ascii_chars("-"@));
        lemma_matched_byte(input, at, "-", 0);
    }
}

/// A keyword phrase that stands in the input is told by its bytes.
pub proof fn lemma_keyword_told(input: Seq<u8>, at: int, i: int)
    requires
        0 <= i < keywords().len(),
        has_prefix_at(input, at, keywords()[i].0.spec_bytes()),
    ensures
        told_by(i + 6, input, at),
{
    if i == 0 {
        reveal_strlit("Execute order");
        assert(vstd::utf8::is_ascii_chars("Execute order"@));
        lemma_matched_byte(input, at, "Execute order", 0);
    } else if i == 1 {
        reveal_strlit("Order executed");
        assert(vstd::utf8::is_ascii_chars("Order executed"@));
        lemma_matched_byte(input, at, "Order executed", 0);
    } else if i == 2 {
        reveal_strlit("A long time ago in a");
        assert(vstd::utf8::is_ascii_chars("A long time ago in a"@));
        lemma_matched_byte(input, at, "A long time ago in a", 0);
    } else if i == 3 {
        reveal_strlit("far, far away...");
        assert(vstd::utf8::is_ascii_chars("far, far away..."@));
        lemma_matched_byte(input, at, "far, far away...", 0);
    } else if i == 4 {
        reveal_strlit("May the force be with you.");
        assert(vstd::utf8::is_ascii_chars("May the force be with you."@));
        lemma_matched_byte(input, at, "May the force be with you.", 0);
    } else if i == 5 {
        reveal_strlit("Do, or do not. There is no try.");
        assert(vstd::utf8::is_ascii_chars("Do, or do not. There is no try."@));
        lemma_matched_byte(input, at, "Do, or do not. There is no try.", 0);
    } else if i == 6 {
        reveal_strlit("These aren't the droids you're looking for.");
        assert(vstd::utf8::is_ascii_chars("These aren't the droids you're looking for."@));
        lemma_matched_byte(input, at, "These aren't the droids you're looking for.", 0);
        lemma_matched_byte(input, at, "These aren't the droids you're looking for.", 2);
        lemma_matched_byte(input, at, "These aren't the droids you're looking for.", 3);
    } else if i == 7 {
        reveal_strlit("You have failed me for the last time.");
        assert(vstd::utf8::is_ascii_chars("You have failed me for the last time."@));
        lemma_matched_byte(input, at, "You have failed me for the last time.", 0);
        lemma_matched_byte(input, at, "You have failed me for the last time.", 3);
    } else if i == 8 {
        reveal_strlit("I am your father.");
        assert(vstd::utf8::is_ascii_chars("I am your father."@));
        lemma_matched_byte(input, at, "I am your father.", 0);
        lemma_matched_byte(input, at, "I am your father.", 5);
    } else if i == 9 {
        reveal_strlit("Judge me by my size, do you ?");
        assert(vstd::utf8::is_ascii_chars("Judge me by my size, do you ?"@));
        lemma_matched_byte(input, at, "Judge me by my size, do you ?", 0);
        lemma_matched_byte(input, at, "Judge me by my size, do you ?", 1);
    } else if i == 10 {
        reveal_strlit("Who, mesa ?");
        assert(vstd::utf8::is_ascii_chars("Who, mesa ?"@));
        lemma_matched_byte(input, at, "Who, mesa ?", 0);
        lemma_matched_byte(input, at, "Who, mesa ?", 2);
    } else if i == 11 {
        reveal_strlit("What a piece of junk!");
        assert(vstd::utf8::is_ascii_chars("What a piece of junk!"@));
        lemma_matched_byte(input, at, "What a piece of junk!", 0);
        lemma_matched_byte(input, at, "What a piece of junk!", 2);
    } else if i == 12 {
        reveal_strlit("The garbage will do.");
        assert(vstd::utf8::is_ascii_chars("The garbage will do."@));
        lemma_matched_byte(input, at, "The garbage will do.", 0);
        lemma_matched_byte(input, at, "The garbage will do.", 2);
        lemma_matched_byte(input, at, "The garbage will do.", 3);
        lemma_matched_byte(input, at, "The garbage will do.", 4);
    } else if i == 13 {
        reveal_strlit("I am a big deal in the resistance.");
        assert(vstd::utf8::is_ascii_chars("I am a big deal in the resistance."@));
        lemma_matched_byte(input, at, "I am a big deal in the resistance.", 0);
        lemma_matched_byte(input, at, "I am a big deal in the resistance.", 5);
    } else if i == 14 {
        reveal_strlit("The force is strong with this one.");
        assert(vstd::utf8::is_ascii_chars("The force is strong with this one."@));
        lemma_matched_byte(input, at, "The force is strong with this one.", 0);
        lemma_matched_byte(input, at, "The force is strong with this one.", 2);
        lemma_matched_byte(input, at, "The force is strong with this one.", 3);
        lemma_matched_byte(input, at, "The force is strong with this one.", 4);
    } else if i == 15 {
        reveal_strlit("That's one hell of a pilot.");
        assert(vstd::utf8::is_ascii_chars("That's one hell of a pilot."@));
        lemma_matched_byte(input, at, "That's one hell of a pilot.", 0);
        lemma_matched_byte(input, at, "That's one hell of a pilot.", 2);
        lemma_matched_byte(input, at, "That's one hell of a pilot.", 7);
    } else if i == 16 {
        reveal_strlit("From a certain point of view.");
        assert(vstd::utf8::is_ascii_chars("From a certain point of view."@));
        lemma_matched_byte(input, at, "From a certain point of view.", 0);
    } else if i == 17 {
        reveal_strlit("That's impossible!");
        assert(vstd::utf8::is_ascii_chars("That's impossible!"@));
        lemma_matched_byte(input, at, "That's impossible!", 0);
        lemma_matched_byte(input, at, "That's impossible!", 2);
        lemma_matched_byte(input, at, "That's impossible!", 7);
    } else if i == 18 {
        reveal_strlit("Starfield");
        assert(vstd::utf8::is_ascii_chars("Starfield"@));
        lemma_matched_byte(input, at, "Starfield", 0);
        lemma_matched_byte(input, at, "Starfield", 1);
    } else if i == 19 {
        reveal_strlit("Hypersignal");
        assert(vstd::utf8::is_ascii_chars("Hypersignal"@));
        lemma_matched_byte(input, at, "Hypersignal", 0);
        lemma_matched_byte(input, at, "Hypersignal", 1);
    } else if i == 20 {
        reveal_strlit("Jamsignal");
        assert(vstd::utf8::is_ascii_chars("Jamsignal"@));
        lemma_matched_byte(input, at, "Jamsignal", 0);
        lemma_matched_byte(input, at, "Jamsignal", 1);
    } else if i == 21 {
        reveal_strlit("Cargo");
        assert(vstd::utf8::is_ascii_chars("Cargo"@));
        lemma_matched_byte(input, at, "Cargo", 0);
        lemma_matched_byte(input, at, "Cargo", 1);
    } else if i == 22 {
        reveal_strlit("UnloadCargo");
        assert(vstd::utf8::is_ascii_chars("UnloadCargo"@));
        lemma_matched_byte(input, at, "UnloadCargo", 0);
    }
}

/// The name of a type that stands in the input is told by its bytes.
pub proof fn lemma_type_told(input: Seq<u8>, at: int, i: int)
    requires
        0 <= i < types().len(),
        has_prefix_at(input, at, types()[i].0.spec_bytes()),
    ensures
        told_by(i + 29, input, at),
{
    if i == 0 {
        reveal_strlit("Credit");
        assert(vstd::utf8::is_ascii_chars("Credit"@));
        lemma_matched_byte(input, at, "Credit", 0);
        lemma_matched_byte(input, at, "Credit", 1);
    } else if i == 1 {
        reveal_strlit("Holotext");
        assert(vstd::utf8::is_ascii_chars("Holotext"@));
        lemma_matched_byte(input, at, "Holotext", 0);
        lemma_matched_byte(input, at, "Holotext", 1);
    } else if i == 2 {
        reveal_strlit("Signal");
        assert(vstd::utf8::is_ascii_chars("Signal"@));
        lemma_matched_byte(input, at, "Signal", 0);
        lemma_matched_byte(input, at, "Signal", 1);
    }
}

/// A phrase that stands in the input is told by its bytes.
pub proof fn lemma_phrase_told(input: Seq<u8>, at: int, i: int)
    requires
        0 <= i < phrases().len(),
        has_prefix_at(input, at, phrases()[i].0.spec_bytes()),
    ensures
        told_by(i, input, at),
{
    if i < PUNCTS_LEN {
        assert(phrases()[i] == puncts()[i]);
        lemma_punct_told(input, at, i);
    } else if i < PUNCTS_LEN + KEYWORDS_LEN {
        assert(phrases()[i] == keywords()[i - PUNCTS_LEN]);
        lemma_keyword_told(input, at, i - PUNCTS_LEN);
    } else {
        assert(phrases()[i] == types()[i - PUNCTS_LEN - KEYWORDS_LEN]);
        lemma_type_told(input, at, i - PUNCTS_LEN - KEYWORDS_LEN);
    }
}

/// The bytes that tell one phrase tell no other.
pub proof fn lemma_told_apart(input: Seq<u8>, at: int, i: int, j: int)
    requires
        told_by(i, input, at),
        told_by(j, input, at),
    ensures
        i == j,
{
}

/// No two phrases stand at one place: no phrase is the start of another.
pub proof fn lemma_one_phrase(input: Seq<u8>, at: int, i: int, j: int)
    requires
        0 <= i < phrases().len(),
        0 <= j < phrases().len(),
        has_prefix_at(input, at, phrases()[i].0.spec_bytes()),
        has_prefix_at(input, at, phrases()[j].0.spec_bytes()),
    ensures
        i == j,
{
    lemma_phrase_told(input, at, i);
    lemma_phrase_told(input, at, j);
    lemma_told_apart(input, at, i, j);
}

} // verus!
