//! Walks over the accessibility elements of a window, element by element. Reading an element is slow,
//! so a walk hands out one at a time and takes in what was read.

use vstd::prelude::*;

use crate::text::{text_eq, texts};

verus! {

/// An unlocked database window can hold thousands of rows, so a walk for texts stops after this many
/// elements. The unlock screen is far smaller.
pub const LIMIT: usize = 400;

/// How deep a walk goes.
pub const DEPTH: usize = 25;

/// The count after one more element. It stops just past the limit.
pub open spec fn counted(visited: nat) -> nat {
    if visited > LIMIT {
        visited
    } else {
        visited + 1
    }
}

/// The next element to read off a stack of elements with their depths, the stack and the count after
/// it. Elements past the limits are dropped.
pub open spec fn next_visit<H>(pending: Seq<(H, nat)>, visited: nat) -> (
    Seq<(H, nat)>,
    nat,
    Option<(H, nat)>,
)
    decreases pending.len(),
{
    if pending.len() == 0 {
        (pending, visited, None)
    } else if counted(visited) > LIMIT || pending.last().1 > DEPTH {
        next_visit(pending.drop_last(), counted(visited))
    } else {
        (pending.drop_last(), counted(visited), Some(pending.last()))
    }
}

/// The stack with the children of an element on top, the first child uppermost.
pub open spec fn with_children<H>(
    pending: Seq<(H, nat)>,
    children: Seq<H>,
    depth: nat,
) -> Seq<(H, nat)> {
    pending + Seq::new(
        children.len(),
        |i: int| (children[children.len() - 1 - i], depth),
    )
}

/// Handles with their depths.
pub open spec fn depths<H>(pending: Seq<(H, usize)>) -> Seq<(H, nat)> {
    pending.map_values(|p: (H, usize)| (p.0, p.1 as nat))
}

/// Puts the children of an element on a stack.
fn push_children<H>(pending: &mut Vec<(H, usize)>, children: Vec<H>, depth: usize)
    ensures
        depths(final(pending)@) == with_children(depths(old(pending)@), children@, depth as nat),
{
    let ghost before = depths(pending@);
    let ghost all = children@;
    let mut rest = children;
    let ghost goal = with_children(before, all, depth as nat);
    while rest.len() > 0
        invariant
            rest@ =~= all.take(rest@.len() as int),
            rest@.len() <= all.len(),
            goal == with_children(before, all, depth as nat),
            depths(pending@) =~= goal.take(before.len() + all.len() - rest@.len()),
        decreases rest@.len(),
    {
        let ghost count = rest@.len();
        let ghost had = depths(pending@);
        match rest.pop() {
            Some(child) => {
                pending.push((child, depth));
                assert(depths(pending@) =~= had.push((child, depth as nat)));
                assert(goal[before.len() + all.len() - count] == (all[count - 1], depth as nat));
            },
            None => {},
        }
    }
    assert(goal.take(before.len() + all.len() as int) =~= goal);
}

/// A walk that gathers the static texts of a window, depth first.
pub struct TextWalk<H> {
    pending: Vec<(H, usize)>,
    visited: usize,
    depth: usize,
    out: Vec<String>,
}

impl<H> TextWalk<H> {
    /// The elements still to read, uppermost last.
    pub closed spec fn pending(self) -> Seq<(H, nat)> {
        depths(self.pending@)
    }

    /// How many elements were taken off the stack.
    pub closed spec fn visited(self) -> nat {
        self.visited as nat
    }

    /// The depth of the element handed out last.
    pub closed spec fn depth(self) -> nat {
        self.depth as nat
    }

    /// The texts gathered so far.
    pub closed spec fn out(self) -> Seq<Seq<char>> {
        texts(self.out@)
    }

    /// The counts are within their bounds.
    pub open spec fn wf(self) -> bool {
        self.visited() <= LIMIT + 1 && self.depth() <= DEPTH
    }

    /// Starts at `root`.
    pub fn new(root: H) -> (walk: TextWalk<H>)
        ensures
            walk.wf(),
            walk.pending() == seq![(root, 0nat)],
            walk.visited() == 0,
            walk.out() == Seq::<Seq<char>>::empty(),
    {
        let mut pending: Vec<(H, usize)> = Vec::new();
        pending.push((root, 0));
        let walk = TextWalk { pending, visited: 0, depth: 0, out: Vec::new() };
        assert(walk.pending() =~= seq![(root, 0nat)]);
        assert(walk.out() =~= Seq::<Seq<char>>::empty());
        walk
    }

    /// Hands out the next element to read.
    pub fn next(&mut self) -> (element: Option<H>)
        requires
            old(self).wf(),
        ensures
            final(self).wf(),
            final(self).out() == old(self).out(),
            ({
                let (pending, visited, found) = next_visit(
                    old(self).pending(),
                    old(self).visited(),
                );
                &&& final(self).pending() == pending
                &&& final(self).visited() == visited
                &&& match element {
                    Some(e) => found == Some((e, final(self).depth())),
                    None => found is None,
                }
            }),
    {
        let ghost start = (self.pending(), self.visited());
        let ghost out = self.out();
        while self.pending.len() > 0
            invariant
                self.wf(),
                start == (old(self).pending(), old(self).visited()),
                out == old(self).out(),
                self.out() == out,
                next_visit(start.0, start.1) == next_visit(self.pending(), self.visited()),
            decreases self.pending@.len(),
        {
            let ghost had = self.pending();
            let (element, depth) = match self.pending.pop() {
                Some(top) => top,
                None => return None,
            };
            assert(self.pending() =~= had.drop_last());
            assert(had.last() == (element, depth as nat));
            if self.visited <= LIMIT {
                self.visited = self.visited + 1;
            }
            if self.visited <= LIMIT && depth <= DEPTH {
                self.depth = depth;
                return Some(element);
            }
        }
        None
    }

    /// Takes in what was read of the element that was handed out last.
    pub fn found(&mut self, role: &str, value: String, children: Vec<H>)
        requires
            old(self).wf(),
        ensures
            final(self).wf(),
            final(self).visited() == old(self).visited(),
            final(self).out() == old(self).out() + own_text(role@, value@),
            final(self).pending() == with_children(
                old(self).pending(),
                children@,
                old(self).depth() + 1,
            ),
    {
        let ghost had = self.out();
        if text_eq(role, "AXStaticText") {
            self.out.push(value);
            assert(self.out() =~= had + own_text(role@, value@));
        } else {
            assert(self.out() =~= had + own_text(role@, value@));
        }
        push_children(&mut self.pending, children, self.depth + 1);
    }

    /// The texts, once no element is left.
    pub fn into_texts(self) -> (out: Vec<String>)
        ensures
            texts(out@) == self.out(),
    {
        self.out
    }
}

/// The text that an element adds.
pub open spec fn own_text(role: Seq<char>, value: Seq<char>) -> Seq<Seq<char>> {
    if role == "AXStaticText"@ {
        seq![value]
    } else {
        Seq::empty()
    }
}

/// An element with everything below it.
pub struct Tree {
    pub role: Seq<char>,
    pub value: Seq<char>,
    pub title: Seq<char>,
    pub children: Seq<Tree>,
}

/// The texts in a tree, depth first, and the count after it.
pub open spec fn tree_texts(tree: Tree, depth: nat, visited: nat) -> (nat, Seq<Seq<char>>)
    decreases tree,
{
    let count = counted(visited);
    if count > LIMIT || depth > DEPTH {
        (count, Seq::empty())
    } else {
        let (after, below) = forest_texts(tree.children, depth + 1, count);
        (after, own_text(tree.role, tree.value) + below)
    }
}

/// The texts in some trees, one after the other, and the count after them.
pub open spec fn forest_texts(trees: Seq<Tree>, depth: nat, visited: nat) -> (nat, Seq<Seq<char>>)
    decreases trees,
{
    if trees.len() == 0 {
        (visited, Seq::empty())
    } else {
        let (between, first) = tree_texts(trees[0], depth, visited);
        let (after, rest) = forest_texts(trees.subrange(1, trees.len() as int), depth, between);
        (after, first + rest)
    }
}

/// The texts in the trees on a stack, from the top.
pub open spec fn stack_texts(pending: Seq<(Tree, nat)>, visited: nat) -> Seq<Seq<char>>
    decreases pending.len(),
{
    if pending.len() == 0 {
        Seq::empty()
    } else {
        let (after, first) = tree_texts(pending.last().0, pending.last().1, visited);
        first + stack_texts(pending.drop_last(), after)
    }
}

/// A walk gathers the texts of its tree depth first, within the limits: at every step, what it has
/// gathered and what the rest of the stack holds make up the whole. Here `pending` and `visited` are a
/// walk's, `found` is what it hands out next, and the stack after it is the one that `found` takes
/// the children in to.
pub proof fn a_step_keeps_the_texts(pending: Seq<(Tree, nat)>, visited: nat)
    ensures
        ({
            let (rest, count, found) = next_visit(pending, visited);
            match found {
                None => stack_texts(pending, visited) == Seq::<Seq<char>>::empty(),
                Some((tree, depth)) => stack_texts(pending, visited) == own_text(
                    tree.role,
                    tree.value,
                ) + stack_texts(with_children(rest, tree.children, depth + 1), count),
            }
        }),
    decreases pending.len(),
{
    if pending.len() > 0 {
        let (tree, depth) = pending.last();
        let count = counted(visited);
        let rest = pending.drop_last();
        if count > LIMIT || depth > DEPTH {
            a_step_keeps_the_texts(rest, count);
            assert(stack_texts(pending, visited) =~= stack_texts(rest, count));
        } else {
            children_are_walked_in_order(rest, tree.children, depth + 1, count);
            let (after, below) = forest_texts(tree.children, depth + 1, count);
            assert(stack_texts(pending, visited) =~= own_text(tree.role, tree.value) + (below
                + stack_texts(rest, after)));
        }
    }
}

/// A walk that starts at a tree has all of its texts ahead.
pub proof fn a_walk_starts_with_every_text(tree: Tree)
    ensures
        stack_texts(seq![(tree, 0nat)], 0) == tree_texts(tree, 0, 0).1,
{
    reveal_with_fuel(stack_texts, 2);
    let stack = seq![(tree, 0nat)];
    assert(stack.drop_last() =~= Seq::empty());
    assert(stack.last() == (tree, 0nat));
    let (after, first) = tree_texts(tree, 0, 0);
    assert(first + Seq::<Seq<char>>::empty() =~= first);
}

proof fn children_are_walked_in_order(
    rest: Seq<(Tree, nat)>,
    children: Seq<Tree>,
    depth: nat,
    visited: nat,
)
    ensures
        ({
            let (after, below) = forest_texts(children, depth, visited);
            stack_texts(with_children(rest, children, depth), visited) == below + stack_texts(
                rest,
                after,
            )
        }),
    decreases children.len(),
{
    let stack = with_children(rest, children, depth);
    if children.len() == 0 {
        assert(stack =~= rest);
        assert(Seq::<Seq<char>>::empty() + stack_texts(rest, visited) =~= stack_texts(
            rest,
            visited,
        ));
    } else {
        let others = children.subrange(1, children.len() as int);
        let (between, first) = tree_texts(children[0], depth, visited);
        assert(stack.last() == (children[0], depth));
        assert(stack.drop_last() =~= with_children(rest, others, depth));
        children_are_walked_in_order(rest, others, depth, between);
        let (after, below) = forest_texts(others, depth, between);
        assert(first + (below + stack_texts(rest, after)) =~= (first + below) + stack_texts(
            rest,
            after,
        ));
    }
}

/// What to do about an element that was read.
#[derive(Debug, Clone, Copy, PartialEq, Eq, Structural)]
pub enum ButtonStep {
    /// It is the button.
    Found,
    /// Look at its children.
    Descend,
    /// Look no further below it.
    Skip,
}

/// A walk that looks for a button below a window, depth first.
pub struct ButtonWalk<H> {
    pending: Vec<(H, usize)>,
    depth: usize,
}

impl<H> ButtonWalk<H> {
    /// The elements still to read, uppermost last.
    pub closed spec fn pending(self) -> Seq<(H, nat)> {
        depths(self.pending@)
    }

    /// The depth of the element handed out last.
    pub closed spec fn depth(self) -> nat {
        self.depth as nat
    }

    /// Starts with the children of a window.
    pub fn new(children: Vec<H>) -> (walk: ButtonWalk<H>)
        ensures
            walk.pending() == with_children(Seq::empty(), children@, 0),
    {
        let mut pending: Vec<(H, usize)> = Vec::new();
        assert(depths(pending@) =~= Seq::<(H, nat)>::empty());
        push_children(&mut pending, children, 0);
        ButtonWalk { pending, depth: 0 }
    }

    /// Hands out the next element to read.
    pub fn next(&mut self) -> (element: Option<H>)
        ensures
            element is None <==> old(self).pending().len() == 0,
            element is None ==> final(self).pending() == old(self).pending(),
            element matches Some(e) ==> old(self).pending().last() == (e, final(self).depth())
                && final(self).pending() == old(self).pending().drop_last(),
    {
        let ghost had = self.pending();
        match self.pending.pop() {
            Some((element, depth)) => {
                self.depth = depth;
                assert(self.pending() =~= had.drop_last());
                Some(element)
            },
            None => None,
        }
    }

    /// Decides about the element that was handed out last.
    pub fn read(&self, role: &str, title: &str, wanted: &str) -> (step: ButtonStep)
        ensures
            step == button_step(role@, title@, wanted@, self.depth()),
    {
        if text_eq(role, "AXButton") && text_eq(title, wanted) {
            ButtonStep::Found
        } else if self.depth < DEPTH {
            ButtonStep::Descend
        } else {
            ButtonStep::Skip
        }
    }

    /// Takes in the children of the element that was handed out last.
    pub fn descend(&mut self, children: Vec<H>)
        requires
            old(self).depth() < DEPTH,
        ensures
            final(self).pending() == with_children(
                old(self).pending(),
                children@,
                old(self).depth() + 1,
            ),
    {
        push_children(&mut self.pending, children, self.depth + 1);
    }
}

/// What to do about an element with a role and a title when a button is wanted.
pub open spec fn button_step(
    role: Seq<char>,
    title: Seq<char>,
    wanted: Seq<char>,
    depth: nat,
) -> ButtonStep {
    if role == "AXButton"@ && title == wanted {
        ButtonStep::Found
    } else if depth < DEPTH {
        ButtonStep::Descend
    } else {
        ButtonStep::Skip
    }
}

/// The first button with the wanted title among some trees and below them, depth first.
pub open spec fn button_in(trees: Seq<Tree>, wanted: Seq<char>, depth: nat) -> Option<Tree>
    decreases trees,
{
    if trees.len() == 0 {
        None
    } else {
        let first = match button_step(trees[0].role, trees[0].title, wanted, depth) {
            ButtonStep::Found => Some(trees[0]),
            ButtonStep::Descend => button_in(trees[0].children, wanted, depth + 1),
            ButtonStep::Skip => None,
        };
        if first is Some {
            first
        } else {
            button_in(trees.subrange(1, trees.len() as int), wanted, depth)
        }
    }
}

/// The first button with the wanted title in the trees on a stack, from the top.
pub open spec fn stack_button(pending: Seq<(Tree, nat)>, wanted: Seq<char>) -> Option<Tree>
    decreases pending.len(),
{
    if pending.len() == 0 {
        None
    } else {
        let first = button_in(seq![pending.last().0], wanted, pending.last().1);
        if first is Some {
            first
        } else {
            stack_button(pending.drop_last(), wanted)
        }
    }
}

/// A walk for a button finds the first one depth first: at every step, the button that the stack holds
/// is the uppermost element, or the button that the stack after it holds.
pub proof fn a_step_keeps_the_button(pending: Seq<(Tree, nat)>, wanted: Seq<char>)
    requires
        pending.len() > 0,
    ensures
        ({
            let (tree, depth) = pending.last();
            let rest = pending.drop_last();
            match button_step(tree.role, tree.title, wanted, depth) {
                ButtonStep::Found => stack_button(pending, wanted) == Some(tree),
                ButtonStep::Descend => stack_button(pending, wanted) == stack_button(
                    with_children(rest, tree.children, depth + 1),
                    wanted,
                ),
                ButtonStep::Skip => stack_button(pending, wanted) == stack_button(rest, wanted),
            }
        }),
{
    let (tree, depth) = pending.last();
    let one = seq![tree];
    assert(one.subrange(1, 1) =~= Seq::<Tree>::empty());
    reveal_with_fuel(button_in, 2);
    children_are_searched_in_order(pending.drop_last(), tree.children, wanted, depth + 1);
}

/// A walk for a button starts with the children of the window, in order.
pub proof fn a_search_starts_with_every_button(children: Seq<Tree>, wanted: Seq<char>)
    ensures
        stack_button(with_children(Seq::empty(), children, 0), wanted) == button_in(
            children,
            wanted,
            0,
        ),
{
    children_are_searched_in_order(Seq::empty(), children, wanted, 0);
}

proof fn children_are_searched_in_order(
    rest: Seq<(Tree, nat)>,
    children: Seq<Tree>,
    wanted: Seq<char>,
    depth: nat,
)
    ensures
        stack_button(with_children(rest, children, depth), wanted) == (if button_in(
            children,
            wanted,
            depth,
        ) is Some {
            button_in(children, wanted, depth)
        } else {
            stack_button(rest, wanted)
        }),
    decreases children.len(),
{
    let stack = with_children(rest, children, depth);
    if children.len() == 0 {
        assert(stack =~= rest);
    } else {
        let others = children.subrange(1, children.len() as int);
        assert(stack.last() == (children[0], depth));
        assert(stack.drop_last() =~= with_children(rest, others, depth));
        let one = seq![children[0]];
        assert(one.subrange(1, 1) =~= Seq::<Tree>::empty());
        reveal_with_fuel(button_in, 2);
        children_are_searched_in_order(rest, others, wanted, depth);
    }
}

/// A walk hands out the uppermost element while fewer than 400 were taken off and it lies at most 25
/// deep. A deeper one is passed over. Once 400 were taken off, nothing more is handed out.
pub proof fn a_walk_hands_out_the_uppermost<H>(pending: Seq<(H, nat)>, visited: nat)
    ensures
        pending.len() == 0 ==> next_visit(pending, visited).2 is None,
        pending.len() > 0 && visited < 400 && pending.last().1 <= 25 ==> next_visit(
            pending,
            visited,
        ) == (pending.drop_last(), visited + 1, Some(pending.last())),
        pending.len() > 0 && visited < 400 && pending.last().1 > 25 ==> next_visit(pending, visited)
            == next_visit(pending.drop_last(), visited + 1),
        visited >= 400 ==> next_visit(pending, visited).2 is None && next_visit(
            pending,
            visited,
        ).0.len() == 0,
    decreases pending.len(),
{
    if pending.len() > 0 {
        a_walk_hands_out_the_uppermost(pending.drop_last(), counted(visited));
    }
}

/// The children of an element come next, the first one first, before everything that waits already.
pub proof fn children_come_next_in_order<H>(
    pending: Seq<(H, nat)>,
    children: Seq<H>,
    depth: nat,
    i: int,
)
    requires
        0 <= i < children.len(),
    ensures
        ({
            let stack = with_children(pending, children, depth);
            &&& stack.len() == pending.len() + children.len()
            &&& stack[stack.len() - 1 - i] == (children[i], depth)
            &&& stack.take(pending.len() as int) == pending
        }),
{
    assert(with_children(pending, children, depth).take(pending.len() as int) =~= pending);
}

/// Only a static text adds its value. Only a button with the wanted title is the one, and a search goes
/// below every other element that lies less than 25 deep.
pub proof fn only_texts_and_buttons_count(
    role: Seq<char>,
    value: Seq<char>,
    wanted: Seq<char>,
    depth: nat,
)
    ensures
        own_text("AXStaticText"@, value) == seq![value],
        role != "AXStaticText"@ ==> own_text(role, value) == Seq::<Seq<char>>::empty(),
        button_step("AXButton"@, wanted, wanted, depth) == ButtonStep::Found,
        role != "AXButton"@ || value != wanted ==> button_step(role, value, wanted, depth) == (
        if depth < 25 {
            ButtonStep::Descend
        } else {
            ButtonStep::Skip
        }),
{
}

} // verus!
