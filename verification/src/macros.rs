//! Macros and the table that holds them.

use vstd::prelude::*;
use crate::token::Token;
use crate::token::TokenView;

verus! {

/// The tokens of a vector, as mathematical values.
pub open spec fn tokens_view(tokens: Seq<Token>) -> Seq<TokenView> {
    Seq::new(tokens.len(), |i: int| tokens[i]@)
}

/// The view of a vector that grew by one token.
pub proof fn lemma_tokens_view_push(tokens: Seq<Token>, t: Token)
    ensures
        tokens_view(tokens.push(t)) == tokens_view(tokens).push(t@),
{
    assert(tokens_view(tokens.push(t)) =~= tokens_view(tokens).push(t@));
}

/// The strings of a vector, as sequences of characters.
pub open spec fn strings_view(strings: Seq<String>) -> Seq<Seq<char>> {
    Seq::new(strings.len(), |i: int| strings[i]@)
}

/// A copy of a vector of tokens.
pub fn clone_tokens(tokens: &Vec<Token>) -> (r: Vec<Token>)
    ensures
        r@ == tokens@,
{
    tokens.clone()
}

/// The two kinds of macro.
#[derive(Debug, PartialEq, Eq)]
pub enum MacroType {
    /// A macro without parameters: its name stands for its body.
    Objlike,
    /// A macro with the given parameters, which is called with arguments.
    Funclike(Vec<String>),
}

/// A macro: its kind and its body. In the body of a function-like macro
/// every use of a parameter is a `Param` token that holds the parameter's
/// position.
#[derive(Debug, PartialEq, Eq)]
pub struct Macro {
    pub ty: MacroType,
    pub tokens: Vec<Token>,
}

/// The mathematical value of a [`MacroType`].
pub ghost enum MacroTypeView {
    Objlike,
    Funclike(Seq<Seq<char>>),
}

/// The mathematical value of a [`Macro`].
pub ghost struct MacroView {
    pub ty: MacroTypeView,
    pub tokens: Seq<TokenView>,
}

impl View for MacroType {
    type V = MacroTypeView;

    open spec fn view(&self) -> MacroTypeView {
        match self {
            MacroType::Objlike => MacroTypeView::Objlike,
            MacroType::Funclike(params) => MacroTypeView::Funclike(strings_view(params@)),
        }
    }
}

impl View for Macro {
    type V = MacroView;

    open spec fn view(&self) -> MacroView {
        MacroView { ty: self.ty@, tokens: tokens_view(self.tokens@) }
    }
}

impl Clone for MacroType {
    fn clone(&self) -> (r: Self)
        ensures
            r@ == self@,
    {
        match self {
            MacroType::Objlike => MacroType::Objlike,
            MacroType::Funclike(params) => {
                let p = params.clone();
                assert(p@ == params@);
                MacroType::Funclike(p)
            },
        }
    }
}

impl Macro {
    /// A macro of the given kind with an empty body.
    pub fn new(ty: MacroType) -> (m: Macro)
        ensures
            m.ty == ty,
            m.tokens@ == Seq::<Token>::empty(),
    {
        Macro { ty, tokens: Vec::new() }
    }
}

impl Clone for Macro {
    fn clone(&self) -> (r: Self)
        ensures
            r@ == self@,
    {
        Macro { ty: self.ty.clone(), tokens: clone_tokens(&self.tokens) }
    }
}

/// A macro under its name.
#[derive(Debug, PartialEq, Eq)]
pub struct MacroEntry {
    pub name: String,
    pub mac: Macro,
}

/// The macros that are defined, by name. A later definition of a name
/// takes the place of an earlier one.
#[derive(Debug, PartialEq, Eq)]
pub struct MacroTable {
    pub entries: Vec<MacroEntry>,
}

/// The map from names to macros that a list of definitions stands for.
pub open spec fn table_view(entries: Seq<MacroEntry>) -> Map<Seq<char>, MacroView>
    decreases entries.len(),
{
    if entries.len() == 0 {
        Map::empty()
    } else {
        table_view(entries.drop_last()).insert(entries.last().name@, entries.last().mac@)
    }
}

impl View for MacroTable {
    type V = Map<Seq<char>, MacroView>;

    open spec fn view(&self) -> Map<Seq<char>, MacroView> {
        table_view(self.entries@)
    }
}

impl MacroTable {
    /// The empty table.
    pub fn new() -> (t: MacroTable)
        ensures
            t@ == Map::<Seq<char>, MacroView>::empty(),
    {
        MacroTable { entries: Vec::new() }
    }

    /// The macro called `name`, if there is one.
    pub fn get(&self, name: &String) -> (r: Option<&Macro>)
        ensures
            match r {
                Some(m) => self@.contains_key(name@) && self@[name@] == m@,
                None => !self@.contains_key(name@),
            },
    {
        let ghost all = self.entries@;
        let mut k: usize = self.entries.len();
        proof {
            assert(all.take(k as int) == all);
        }
        while k > 0
            invariant
                k <= self.entries.len(),
                all == self.entries@,
                table_view(all).contains_key(name@) == table_view(all.take(k as int)).contains_key(
                    name@,
                ),
                table_view(all).contains_key(name@) ==> table_view(all)[name@] == table_view(
                    all.take(k as int),
                )[name@],
            decreases k,
        {
            k -= 1;
            proof {
                assert(all.take(k as int + 1).drop_last() == all.take(k as int));
            }
            if self.entries[k].name == *name {
                return Some(&self.entries[k].mac);
            }
        }
        proof {
            assert(all.take(0).len() == 0);
        }
        None
    }

    /// Defines `name` as `mac`.
    pub fn insert(&mut self, name: String, mac: Macro)
        ensures
            final(self)@ == old(self)@.insert(name@, mac@),
    {
        let entry = MacroEntry { name, mac };
        proof {
            assert(self.entries@.push(entry).drop_last() == self.entries@);
        }
        self.entries.push(entry);
    }
}

} // verus!
