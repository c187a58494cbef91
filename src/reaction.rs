//! The reaction symbol that counts as a tater.
use serenity::model::channel::ReactionType;
use std::convert::TryFrom;
use vstd::prelude::*;

use crate::text::{decimal, push_decimal};

verus! {

/// A reaction symbol: a unicode emoji, or a guild's custom emoji.
#[derive(Debug, PartialEq, Eq)]
pub enum Reaction {
    Custom { animated: bool, id: u64, name: Option<String> },
    Unicode(String),
}

/// How a reaction shows in a message.
pub open spec fn reaction_text(r: Reaction) -> Seq<char> {
    match r {
        Reaction::Unicode(u) => u@,
        Reaction::Custom { animated, id, name } => {
            let head = if animated { "<a:"@ } else { "<:"@ };
            let label = match name {
                Some(n) => n@,
                None => Seq::<char>::empty(),
            };
            head + label + ":"@ + decimal(id as nat) + ">"@
        },
    }
}

/// What reading `s` as a reaction may give: nothing for empty text, the text itself
/// as a unicode emoji when it does not open with `<`, nothing when it opens with `<`
/// but does not close with `>`, and otherwise nothing or a custom emoji.
pub open spec fn reaction_reading(s: Seq<char>, r: Option<Reaction>) -> bool {
    if s.len() == 0 {
        r is None
    } else if s[0] != '<' {
        match r {
            Some(Reaction::Unicode(u)) => u@ == s,
            _ => false,
        }
    } else if s.last() != '>' {
        r is None
    } else {
        match r {
            Some(Reaction::Custom { .. }) => true,
            None => true,
            _ => false,
        }
    }
}

/// Relies on `ReactionType::try_from(&str)` (serenity): empty text is refused, text
/// that does not start with `<` is a unicode reaction holding that text, and text that
/// starts with `<` is refused unless it also ends with `>`.
#[verifier::external_body]
pub(crate) fn parse_reaction(s: &str) -> (r: Option<Reaction>)
    ensures
        reaction_reading(s@, r),
{
    match ReactionType::try_from(s) {
        Ok(ReactionType::Custom { animated, id, name }) => Some(Reaction::Custom { animated, id: id.0, name }),
        Ok(ReactionType::Unicode(u)) => Some(Reaction::Unicode(u)),
        _ => None,
    }
}

impl Reaction {
    /// The tater reaction a guild starts with.
    pub fn potato() -> (r: Reaction)
        ensures
            r is Unicode,
            r->Unicode_0@ == "\u{1F954}"@,
    {
        Reaction::Unicode(String::from_str("\u{1F954}"))
    }

    /// How this reaction shows in a message.
    pub fn text(&self) -> (r: String)
        ensures
            r@ == reaction_text(*self),
    {
        match self {
            Reaction::Unicode(u) => u.clone(),
            Reaction::Custom { animated, id, name } => {
                let mut s = if *animated { String::from_str("<a:") } else { String::from_str("<:") };
                match name {
                    Some(n) => s.append(n.as_str()),
                    None => {},
                }
                s.append(":");
                push_decimal(&mut s, *id as u128);
                s.append(">");
                assert(s@ =~= reaction_text(*self));
                s
            },
        }
    }
}

} // verus!
