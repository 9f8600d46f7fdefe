//! The registry of statement plugins: which plugin answers for a statement,
//! judged by the keywords the statement begins with.

use vstd::prelude::*;

use crate::text::{str_eq, to_upper, uppercase, views};

verus! {

/// The texts of a statement's tokens: the word of each token that is a word,
/// nothing for any other token.
pub open spec fn token_views(tokens: Seq<Option<String>>) -> Seq<Option<Seq<char>>> {
    Seq::new(
        tokens.len(),
        |i: int|
            match tokens[i] {
                Some(w) => Some(w@),
                None => None,
            },
    )
}

/// Whether a statement begins with the keywords of `prefix`: token by token
/// a word that is the keyword but for its case. A statement shorter than the
/// prefix does not begin with it.
pub open spec fn matches_prefix(prefix: Seq<Seq<char>>, tokens: Seq<Option<Seq<char>>>) -> bool {
    &&& prefix.len() <= tokens.len()
    &&& forall|i: int|
        0 <= i < prefix.len() ==> (#[trigger] tokens[i]) is Some && uppercase(tokens[i]->0)
            == uppercase(prefix[i])
}

/// Whether `i` is the plugin that answers: its prefix matches, no matching
/// prefix is longer, and of the matching prefixes of its length it is the
/// last one registered.
pub open spec fn answers(prefixes: Seq<Seq<Seq<char>>>, tokens: Seq<Option<Seq<char>>>, i: int) -> bool {
    &&& 0 <= i < prefixes.len()
    &&& matches_prefix(prefixes[i], tokens)
    &&& forall|j: int|
        0 <= j < prefixes.len() && matches_prefix(#[trigger] prefixes[j], tokens) ==> prefixes[j].len()
            < prefixes[i].len() || (prefixes[j].len() == prefixes[i].len() && j <= i)
}

/// Whether the statement begins with the keywords of `prefix`.
pub fn peek_prefix(tokens: &Vec<Option<String>>, prefix: &Vec<String>) -> (r: bool)
    ensures
        r == matches_prefix(views(prefix@), token_views(tokens@)),
{
    if prefix.len() > tokens.len() {
        return false;
    }
    let mut i: usize = 0;
    while i < prefix.len()
        invariant
            i <= prefix@.len() <= tokens@.len(),
            forall|k: int|
                0 <= k < i ==> (#[trigger] token_views(tokens@)[k]) is Some && uppercase(
                    token_views(tokens@)[k]->0,
                ) == uppercase(views(prefix@)[k]),
        decreases prefix@.len() - i,
    {
        let same = match &tokens[i] {
            Some(w) => str_eq(to_upper(w.as_str()).as_str(), to_upper(prefix[i].as_str()).as_str()),
            None => false,
        };
        if !same {
            assert(!(token_views(tokens@)[i as int] is Some && uppercase(
                token_views(tokens@)[i as int]->0,
            ) == uppercase(views(prefix@)[i as int])));
            return false;
        }
        i += 1;
    }
    true
}

/// The plugins that were registered, each known by the keywords that its
/// statements begin with, in the order of registration.
pub struct PluginRegistry {
    pub prefixes: Vec<Vec<String>>,
}

impl PluginRegistry {
    /// The prefixes as mathematics.
    pub open spec fn view(&self) -> Seq<Seq<Seq<char>>> {
        Seq::new(self.prefixes@.len(), |i: int| views(self.prefixes@[i]@))
    }

    /// A registry without plugins.
    pub fn new() -> (r: PluginRegistry)
        ensures
            r@ == Seq::<Seq<Seq<char>>>::empty(),
    {
        let r = PluginRegistry { prefixes: Vec::new() };
        assert(r@ =~= Seq::<Seq<Seq<char>>>::empty());
        r
    }

    /// Registers one more plugin, behind those that are there.
    pub fn register(&mut self, prefix: Vec<String>)
        ensures
            final(self)@ == old(self)@.push(views(prefix@)),
    {
        self.prefixes.push(prefix);
        assert(self@ =~= old(self)@.push(views(prefix@)));
    }

    /// The plugin that answers for a statement: the one with the longest
    /// prefix that the statement begins with, and of several such the last
    /// registered; nothing where no prefix matches.
    pub fn find_match(&self, tokens: &Vec<Option<String>>) -> (r: Option<usize>)
        ensures
            match r {
                Some(i) => answers(self@, token_views(tokens@), i as int),
                None => forall|j: int|
                    0 <= j < self@.len() ==> !matches_prefix(
                        #[trigger] self@[j],
                        token_views(tokens@),
                    ),
            },
    {
        let mut best: Option<usize> = None;
        let mut i: usize = 0;
        while i < self.prefixes.len()
            invariant
                i <= self.prefixes@.len(),
                self@.len() == self.prefixes@.len(),
                match best {
                    Some(b) => b < i && matches_prefix(self@[b as int], token_views(tokens@))
                        && forall|j: int|
                        0 <= j < i && matches_prefix(#[trigger] self@[j], token_views(tokens@))
                            ==> self@[j].len() < self@[b as int].len() || (self@[j].len()
                            == self@[b as int].len() && j <= b),
                    None => forall|j: int|
                        0 <= j < i ==> !matches_prefix(#[trigger] self@[j], token_views(tokens@)),
                },
            decreases self.prefixes@.len() - i,
        {
            assert(self@[i as int] == views(self.prefixes@[i as int]@));
            if peek_prefix(tokens, &self.prefixes[i]) {
                let longer = match best {
                    Some(b) => {
                        assert(self@[b as int] == views(self.prefixes@[b as int]@));
                        self.prefixes[i].len() >= self.prefixes[b].len()
                    },
                    None => true,
                };
                if longer {
                    best = Some(i);
                }
            }
            i += 1;
        }
        best
    }
}

} // verus!
