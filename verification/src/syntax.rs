//! The generic form of a configuration: directives with arguments and blocks.

use crate::duplicate::Duplicate;
use vstd::prelude::*;

verus! {

/// One directive as it was written.
#[derive(Debug, PartialEq, Eq)]
pub struct Directive {
    pub name: String,
    pub args: Vec<String>,
    pub block: Option<Block>,
}

/// What stands between the braces of a directive.
#[derive(Debug, PartialEq, Eq)]
pub struct Block {
    pub directives: Vec<Directive>,
}

/// The mathematical value of a [`Directive`].
#[verifier::ext_equal]
pub struct DirectiveV {
    pub name: Seq<char>,
    pub args: Seq<Seq<char>>,
    pub block: Option<Seq<DirectiveV>>,
}

/// The directive `name args...` without a block.
pub open spec fn line(name: Seq<char>, args: Seq<Seq<char>>) -> DirectiveV {
    DirectiveV { name, args, block: None }
}

/// A directive with a block of these lines.
pub open spec fn with_block(d: DirectiveV, lines: Seq<DirectiveV>) -> DirectiveV {
    DirectiveV { block: Some(lines), ..d }
}

/// The mathematical value of a directive.
pub open spec fn directive_view(d: Directive) -> DirectiveV
    decreases d,
{
    DirectiveV {
        name: d.name@,
        args: d.args.deep_view(),
        block: match d.block {
            Some(b) => Some(directives_view(b.directives@)),
            None => None,
        },
    }
}

/// The mathematical value of a list of directives.
pub open spec fn directives_view(s: Seq<Directive>) -> Seq<DirectiveV>
    decreases s,
{
    Seq::new(
        s.len(),
        |i: int|
            if 0 <= i < s.len() {
                directive_view(s[i])
            } else {
                arbitrary()
            },
    )
}

impl DeepView for Directive {
    type V = DirectiveV;

    open spec fn deep_view(&self) -> DirectiveV {
        directive_view(*self)
    }
}

impl DeepView for Block {
    type V = Seq<DirectiveV>;

    open spec fn deep_view(&self) -> Seq<DirectiveV> {
        directives_view(self.directives@)
    }
}

/// The two ways to view a list of directives agree.
pub proof fn lemma_directives_view(v: Vec<Directive>)
    ensures
        v.deep_view() == directives_view(v@),
{
    assert(v.deep_view() =~= directives_view(v@));
}

/// How deeply the blocks of a directive are nested.
pub open spec fn depth(d: DirectiveV) -> nat
    decreases d,
{
    match d.block {
        Some(list) => 1 + depth_of_all(list),
        None => 0,
    }
}

/// How deeply the blocks of the deepest directive are nested.
pub open spec fn depth_of_all(list: Seq<DirectiveV>) -> nat
    decreases list,
{
    if list.len() == 0 {
        0
    } else {
        let head = depth(list[0]);
        let tail = depth_of_all(list.subrange(1, list.len() as int));
        if head > tail {
            head
        } else {
            tail
        }
    }
}

/// A directive in a list is nested no deeper than the list.
pub proof fn lemma_depth(list: Seq<DirectiveV>, i: int)
    requires
        0 <= i < list.len(),
    ensures
        depth(list[i]) <= depth_of_all(list),
    decreases list.len(),
{
    if i > 0 {
        let tail = list.subrange(1, list.len() as int);
        lemma_depth(tail, i - 1);
        assert(tail[i - 1] == list[i]);
    }
}

/// The depth of a list is that of its deepest directive.
pub proof fn lemma_depth_bound(list: Seq<DirectiveV>, n: nat)
    requires
        forall|i: int| 0 <= i < list.len() ==> depth(#[trigger] list[i]) <= n,
    ensures
        depth_of_all(list) <= n,
    decreases list.len(),
{
    if list.len() > 0 {
        let tail = list.subrange(1, list.len() as int);
        assert forall|i: int| 0 <= i < tail.len() implies depth(#[trigger] tail[i]) <= n by {
            assert(tail[i] == list[i + 1]);
        }
        lemma_depth_bound(tail, n);
        assert(depth(list[0]) <= n);
    }
}

/// Fewer directives are nested no deeper.
pub proof fn lemma_depth_front(list: Seq<DirectiveV>)
    requires
        list.len() > 0,
    ensures
        depth_of_all(list.drop_last()) <= depth_of_all(list),
{
    let front = list.drop_last();
    assert forall|i: int| 0 <= i < front.len() implies depth(#[trigger] front[i]) <= depth_of_all(
        list,
    ) by {
        lemma_depth(list, i);
        assert(front[i] == list[i]);
    }
    lemma_depth_bound(front, depth_of_all(list));
}

/// Copies a directive.
pub fn copy_directive(d: &Directive) -> (r: Directive)
    ensures
        directive_view(r) == directive_view(*d),
    decreases d,
{
    let block = match &d.block {
        Some(b) => Some(Block { directives: copy_directives(&b.directives) }),
        None => None,
    };
    Directive { name: d.name.clone(), args: d.args.duplicate(), block }
}

/// Copies a list of directives.
pub fn copy_directives(list: &Vec<Directive>) -> (r: Vec<Directive>)
    ensures
        directives_view(r@) == directives_view(list@),
    decreases list,
{
    let mut out: Vec<Directive> = Vec::new();
    let mut i: usize = 0;
    while i < list.len()
        invariant
            i <= list.len(),
            out@.len() == i,
            forall|j: int| 0 <= j < i ==> directive_view(out@[j]) == directive_view(list@[j]),
        decreases list.len() - i,
    {
        out.push(copy_directive(&list[i]));
        i += 1;
    }
    assert(directives_view(out@) =~= directives_view(list@));
    out
}

impl Duplicate for Directive {
    fn duplicate(&self) -> Self {
        copy_directive(self)
    }
}

} // verus!
