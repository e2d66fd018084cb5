use crate::parser::grammar::form_of_word;
use crate::parser::token::TokenType;
use vstd::hash_map::StringHashMap;
use vstd::prelude::*;

verus! {

/// The words that are more than identifiers, each with the kind of token
/// that it makes. A language built on the scanner fills it; empty, every
/// word is an identifier.
pub struct Keywords {
    table: StringHashMap<TokenType>,
}

impl View for Keywords {
    type V = Map<Seq<char>, TokenType>;

    closed spec fn view(&self) -> Map<Seq<char>, TokenType> {
        self.table@
    }
}

impl Keywords {
    pub fn new() -> (keywords: Keywords)
        ensures
            keywords@ == Map::<Seq<char>, TokenType>::empty(),
    {
        Keywords { table: StringHashMap::new() }
    }

    /// Makes `word` a keyword of kind `form`, whatever it was before.
    pub fn insert(&mut self, word: String, form: TokenType)
        ensures
            final(self)@ == old(self)@.insert(word@, form),
    {
        self.table.insert(word, form);
    }

    /// The kind of `word`: the one it was given, else an identifier.
    pub fn form_of(&self, word: &str) -> (form: TokenType)
        ensures
            form == form_of_word(self@, word@),
    {
        match self.table.get(word) {
            Some(form) => *form,
            None => TokenType::Identifier,
        }
    }
}

} // verus!
