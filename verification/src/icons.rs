//! A memo of icon lookups: many entries share an icon name, and looking one
//! up is the most expensive step, so each name is resolved once.

use crate::paths::text_of;
use vstd::prelude::*;

verus! {

/// What the icon lookup found for each icon name that was looked up: the
/// icon file, or `None` where there is none. The first answer for a name
/// stays.
#[derive(Debug)]
pub struct IconMemo {
    answers: Vec<(String, Option<String>)>,
}

impl View for IconMemo {
    type V = Map<Seq<char>, Option<Seq<char>>>;

    closed spec fn view(&self) -> Map<Seq<char>, Option<Seq<char>>> {
        Map::new(
            |name: Seq<char>| self.position(name) < self.answers@.len(),
            |name: Seq<char>| text_of(self.answers@[self.position(name)].1),
        )
    }
}

/// The first place at which an answer for `name` stands in `names`, or the
/// length of `names` where none stands there.
spec fn first_position(names: Seq<(String, Option<String>)>, name: Seq<char>) -> int
    decreases names.len(),
{
    if names.len() == 0 {
        0
    } else if names[0].0@ == name {
        0
    } else {
        1 + first_position(names.drop_first(), name)
    }
}

/// The first position lies within the list or at its end; an answer for the
/// name stands there, and none before it.
proof fn lemma_first_position(names: Seq<(String, Option<String>)>, name: Seq<char>)
    ensures
        0 <= first_position(names, name) <= names.len(),
        first_position(names, name) < names.len() ==> names[first_position(names, name)].0@
            == name,
        forall|i: int| 0 <= i < first_position(names, name) ==> (#[trigger] names[i]).0@ != name,
    decreases names.len(),
{
    if names.len() != 0 && names[0].0@ != name {
        let rest = names.drop_first();
        lemma_first_position(rest, name);
        assert forall|i: int| 0 <= i < first_position(names, name) implies (#[trigger] names[i]).0@
            != name by {
            if i > 0 {
                assert(names[i] == rest[i - 1]);
            }
        }
    }
}

/// How one more answer at the end moves the first position of a name: not
/// at all where the name had an answer, and else to the new answer if it is
/// for that name.
proof fn lemma_first_position_after_push(names: Seq<(String, Option<String>)>, added: (String, Option<String>), name: Seq<char>)
    ensures
        first_position(names, name) < names.len() ==> first_position(names.push(added), name)
            == first_position(names, name),
        first_position(names, name) == names.len() && added.0@ == name ==> first_position(
            names.push(added),
            name,
        ) == names.len(),
        first_position(names, name) == names.len() && added.0@ != name ==> first_position(
            names.push(added),
            name,
        ) == names.len() + 1,
    decreases names.len(),
{
    lemma_first_position(names, name);
    if names.len() == 0 {
        let rest = names.push(added).drop_first();
        assert(rest =~= Seq::<(String, Option<String>)>::empty());
        assert(first_position(rest, name) == 0);
    } else {
        assert(names.push(added).drop_first() =~= names.drop_first().push(added));
        if names[0].0@ != name {
            lemma_first_position_after_push(names.drop_first(), added, name);
        }
    }
}

impl IconMemo {
    /// Where the answer for `name` stands among the answers.
    spec fn position(self, name: Seq<char>) -> int {
        first_position(self.answers@, name)
    }

    /// A memo that knows no icon name.
    pub fn new() -> (memo: IconMemo)
        ensures
            memo@ == Map::<Seq<char>, Option<Seq<char>>>::empty(),
    {
        let memo = IconMemo { answers: Vec::new() };
        assert(memo@ =~= Map::<Seq<char>, Option<Seq<char>>>::empty());
        memo
    }

    /// Finds where the answer for `name` stands among the answers.
    fn find(&self, name: &String) -> (at: usize)
        ensures
            at == self.position(name@),
            at <= self.answers@.len(),
    {
        proof {
            lemma_first_position(self.answers@, name@);
        }
        let mut at: usize = 0;
        while at < self.answers.len() && !(self.answers[at].0 == *name)
            invariant
                at <= self.answers@.len(),
                at <= self.position(name@),
                self.position(name@) <= self.answers@.len(),
                self.position(name@) < self.answers@.len() ==> self.answers@[self.position(
                    name@,
                )].0@ == name@,
                forall|i: int|
                    0 <= i < self.position(name@) ==> (#[trigger] self.answers@[i]).0@ != name@,
            decreases self.answers@.len() - at,
        {
            at += 1;
        }
        at
    }

    /// What is remembered of an icon name: `None` where the name was never
    /// looked up, else what the lookup found.
    pub fn lookup(&self, icon_name: &str) -> (known: Option<Option<String>>)
        ensures
            match known {
                Some(found) => self@.dom().contains(icon_name@) && text_of(found)
                    == self@[icon_name@],
                None => !self@.dom().contains(icon_name@),
            },
    {
        let name = icon_name.to_owned();
        let at = self.find(&name);
        if at < self.answers.len() {
            Some(
                match &self.answers[at].1 {
                    Some(path) => Some(path.clone()),
                    None => None,
                },
            )
        } else {
            None
        }
    }

    /// Remembers what the lookup found for an icon name. A name that is
    /// already known keeps its first answer.
    pub fn remember(&mut self, icon_name: &str, found: Option<String>)
        ensures
            final(self)@ == if old(self)@.dom().contains(icon_name@) {
                old(self)@
            } else {
                old(self)@.insert(icon_name@, text_of(found))
            },
    {
        let name = icon_name.to_owned();
        let at = self.find(&name);
        if at == self.answers.len() {
            let ghost before = *self;
            let ghost added = (name, found);
            self.answers.push((name, found));
            proof {
                assert forall|other: Seq<char>|
                    self@.dom().contains(other) <==> before@.insert(
                        icon_name@,
                        text_of(found),
                    ).dom().contains(other) by {
                    lemma_first_position_after_push(before.answers@, added, other);
                    lemma_first_position(before.answers@, other);
                }
                assert forall|other: Seq<char>| #[trigger]
                    self@.dom().contains(other) implies self@[other] == before@.insert(
                    icon_name@,
                    text_of(found),
                )[other] by {
                    lemma_first_position_after_push(before.answers@, added, other);
                    lemma_first_position(before.answers@, other);
                }
                assert(self@ =~= before@.insert(icon_name@, text_of(found)));
            }
        }
    }
}

/// The memo is read-through: once an answer is remembered for a name, that
/// is the answer for the name, and remembering it changes no other name.
pub proof fn lemma_memo_read_through(
    memo: Map<Seq<char>, Option<Seq<char>>>,
    icon_name: Seq<char>,
    found: Option<Seq<char>>,
    other: Seq<char>,
)
    requires
        !memo.dom().contains(icon_name),
        other != icon_name,
    ensures
        memo.insert(icon_name, found).dom().contains(icon_name),
        memo.insert(icon_name, found)[icon_name] == found,
        memo.insert(icon_name, found).dom().contains(other) == memo.dom().contains(other),
        memo.dom().contains(other) ==> memo.insert(icon_name, found)[other] == memo[other],
{
}

} // verus!
