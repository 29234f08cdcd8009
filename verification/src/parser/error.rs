//! Parse failures: the tree a failed parse leaves behind, and its reduction to
//! one located diagnostic with a trail of context labels.

use vstd::prelude::*;

verus! {

/// What a leaf parser was looking for when it failed.
#[derive(Debug, Clone, Copy, PartialEq, Eq)]
pub enum Expectation {
    /// A fixed piece of text, such as a keyword.
    Tag(&'static str),
    /// One specific character.
    Char(char),
    /// An ASCII digit.
    Digit,
    /// At least one whitespace character.
    Multispace,
    /// The end of the input.
    Eof,
}

/// A failure that is described by the kind of parser that gave up rather than
/// by what it expected.
#[derive(Debug, Clone, Copy, PartialEq, Eq)]
pub enum ErrorKind {
    /// A run of at least one matching character was required.
    TakeWhile1,
    /// The text searched for does not occur in the rest of the input.
    TakeUntil,
    /// A repetition that needs at least one item found none.
    Many1,
}

/// The kind of a leaf failure.
#[derive(Debug, Clone, Copy, PartialEq, Eq)]
pub enum BaseErrorKind {
    /// Something specific was expected at the location.
    Expected(Expectation),
    /// A parser of this kind gave up at the location.
    Kind(ErrorKind),
}

/// One frame of the trail that a failure collects on its way up the grammar.
#[derive(Debug, Clone, Copy, PartialEq, Eq)]
pub enum StackContext {
    /// The parser combinator that the failure passed through.
    Kind(ErrorKind),
    /// A named checkpoint of the grammar.
    Context(&'static str),
}

/// The failure of a parse. Locations are byte offsets into the source text.
#[derive(Debug, PartialEq, Eq)]
pub enum ErrorTree {
    /// A leaf: unexpected input at `location`.
    Base { location: usize, kind: BaseErrorKind },
    /// A failure together with the checkpoints it passed, innermost first.
    Stack { base: Box<ErrorTree>, contexts: Vec<(usize, StackContext)> },
    /// The failures of all branches of an ordered choice, in the order tried.
    Alt(Vec<ErrorTree>),
}

/// The mathematical value of an [`ErrorTree`].
pub ghost enum Tree {
    Base { location: usize, kind: BaseErrorKind },
    Stack { base: Box<Tree>, contexts: Seq<(usize, StackContext)> },
    Alt(Seq<Tree>),
}

impl ErrorTree {
    /// The tree as a mathematical value.
    pub open spec fn model(self) -> Tree
        decreases self,
    {
        match self {
            ErrorTree::Base { location, kind } => Tree::Base { location, kind },
            ErrorTree::Stack { base, contexts } => Tree::Stack {
                base: Box::new(base.model()),
                contexts: contexts@,
            },
            ErrorTree::Alt(siblings) => Tree::Alt(
                Seq::new(
                    siblings@.len(),
                    |i: int|
                        if 0 <= i < siblings@.len() {
                            siblings@[i].model()
                        } else {
                            Tree::Alt(Seq::empty())
                        },
                ),
            ),
        }
    }

    /// The failure of an ordered choice of two branches that failed with
    /// `first` and `second`.
    pub fn neither(first: ErrorTree, second: ErrorTree) -> (tree: ErrorTree)
        ensures
            tree@ == Tree::Alt(seq![first@, second@]),
            well_formed(first@) && well_formed(second@) ==> well_formed(tree@),
    {
        let mut siblings: Vec<ErrorTree> = Vec::new();
        siblings.push(first);
        siblings.push(second);
        let tree = ErrorTree::Alt(siblings);
        assert(tree@->Alt_0 =~= seq![first@, second@]);
        tree
    }

    /// The failure of an ordered choice of three branches that failed with
    /// `first`, `second` and `third`.
    pub fn none_of(first: ErrorTree, second: ErrorTree, third: ErrorTree) -> (tree: ErrorTree)
        ensures
            tree@ == Tree::Alt(seq![first@, second@, third@]),
            well_formed(first@) && well_formed(second@) && well_formed(third@) ==> well_formed(
                tree@,
            ),
    {
        let mut siblings: Vec<ErrorTree> = Vec::new();
        siblings.push(first);
        siblings.push(second);
        siblings.push(third);
        let tree = ErrorTree::Alt(siblings);
        assert(tree@->Alt_0 =~= seq![first@, second@, third@]);
        tree
    }
}

impl View for ErrorTree {
    type V = Tree;

    open spec fn view(&self) -> Tree {
        self.model()
    }
}

/// Where a diagnostic points: a byte offset into the source text and a length.
#[derive(Debug, Clone, Copy, PartialEq, Eq)]
pub struct SourceSpan {
    pub offset: usize,
    pub length: usize,
}

/// One breadcrumb of a diagnostic: a checkpoint the parser had entered, and
/// where in the source it did so.
#[derive(Debug, Clone, Copy, PartialEq, Eq)]
pub struct FormattedErrorContext<'b> {
    pub src: &'b str,
    pub span: SourceSpan,
    pub context: StackContext,
}

/// A parse failure reduced to one located leaf and its trail of breadcrumbs,
/// innermost first.
#[derive(Debug, PartialEq, Eq)]
pub struct FormattedError<'b> {
    pub src: &'b str,
    pub span: SourceSpan,
    pub kind: BaseErrorKind,
    pub others: Vec<FormattedErrorContext<'b>>,
}

/// The mathematical value of a [`FormattedErrorContext`].
pub ghost struct Breadcrumb {
    pub src: Seq<char>,
    pub span: SourceSpan,
    pub context: StackContext,
}

/// The mathematical value of a [`FormattedError`].
pub ghost struct Diagnostic {
    pub src: Seq<char>,
    pub span: SourceSpan,
    pub kind: BaseErrorKind,
    pub others: Seq<Breadcrumb>,
}

impl<'b> View for FormattedErrorContext<'b> {
    type V = Breadcrumb;

    open spec fn view(&self) -> Breadcrumb {
        Breadcrumb { src: self.src@, span: self.span, context: self.context }
    }
}

impl<'b> View for FormattedError<'b> {
    type V = Diagnostic;

    open spec fn view(&self) -> Diagnostic {
        Diagnostic {
            src: self.src@,
            span: self.span,
            kind: self.kind,
            others: self.others@.map_values(|c: FormattedErrorContext<'b>| c@),
        }
    }
}

/// A zero-width span at `offset`.
pub open spec fn point(offset: usize) -> SourceSpan {
    SourceSpan { offset, length: 0 }
}

/// The breadcrumb for one frame of a context stack.
pub open spec fn breadcrumb(src: Seq<char>, frame: (usize, StackContext)) -> Breadcrumb {
    Breadcrumb { src, span: point(frame.0), context: frame.1 }
}

/// The index of the first entry of `lens` that no other entry exceeds
/// (0 for an empty sequence).
pub open spec fn first_longest(lens: Seq<nat>) -> int
    decreases lens.len(),
{
    if lens.len() <= 1 {
        0
    } else {
        let best = first_longest(lens.drop_last());
        if lens.last() > lens[best] {
            lens.len() - 1
        } else {
            best
        }
    }
}

/// `first_longest` picks a maximal entry, and the earliest of them.
pub proof fn lemma_first_longest(lens: Seq<nat>)
    requires
        lens.len() > 0,
    ensures
        0 <= first_longest(lens) < lens.len(),
        forall|j: int| 0 <= j < lens.len() ==> #[trigger] lens[j] <= lens[first_longest(lens)],
        forall|j: int|
            0 <= j < first_longest(lens) ==> #[trigger] lens[j] < lens[first_longest(lens)],
    decreases lens.len(),
{
    if lens.len() > 1 {
        let front = lens.drop_last();
        lemma_first_longest(front);
        let best = first_longest(lens);
        assert forall|j: int| 0 <= j < lens.len() implies #[trigger] lens[j] <= lens[best] by {
            if j < front.len() {
                assert(front[j] <= front[first_longest(front)]);
            }
        }
        assert forall|j: int| 0 <= j < best implies #[trigger] lens[j] < lens[best] by {
            assert(front[j] <= front[first_longest(front)]);
        }
    }
}

/// No ordered choice in the tree is without branches.
pub open spec fn well_formed(tree: Tree) -> bool
    decreases tree,
{
    match tree {
        Tree::Base { .. } => true,
        Tree::Stack { base, .. } => well_formed(*base),
        Tree::Alt(siblings) => siblings.len() > 0 && forall|i: int|
            0 <= i < siblings.len() ==> well_formed(#[trigger] siblings[i]),
    }
}

/// The diagnostic that a failure tree reduces to.
///
/// A leaf becomes a diagnostic without breadcrumbs. A stack adds its frames,
/// in order, behind the breadcrumbs of its base. An ordered choice is
/// represented by the branch with the longest trail of breadcrumbs, the
/// earliest such branch where several are equally long. (A choice without
/// branches, which is not well formed, is given a diagnostic at the start of
/// the text.)
pub open spec fn diagnose(src: Seq<char>, tree: Tree) -> Diagnostic
    decreases tree,
{
    match tree {
        Tree::Base { location, kind } => Diagnostic {
            src,
            span: point(location),
            kind,
            others: Seq::empty(),
        },
        Tree::Stack { base, contexts } => {
            let inner = diagnose(src, *base);
            Diagnostic {
                others: inner.others + contexts.map_values(
                    |frame: (usize, StackContext)| breadcrumb(src, frame),
                ),
                ..inner
            }
        },
        Tree::Alt(siblings) => {
            let best = first_longest(trail_lengths(src, siblings));
            if 0 <= best < siblings.len() {
                diagnose(src, siblings[best])
            } else {
                Diagnostic {
                    src,
                    span: point(0),
                    kind: BaseErrorKind::Expected(Expectation::Eof),
                    others: Seq::empty(),
                }
            }
        },
    }
}

/// For each tree of `siblings`, the number of breadcrumbs of its diagnostic.
pub open spec fn trail_lengths(src: Seq<char>, siblings: Seq<Tree>) -> Seq<nat>
    decreases siblings,
{
    Seq::new(
        siblings.len(),
        |i: int|
            if 0 <= i < siblings.len() {
                diagnose(src, siblings[i]).others.len()
            } else {
                0
            },
    )
}

/// Reduces the failure tree `e` of a parse of `input` to one diagnostic.
pub fn format_parse_error<'a>(input: &'a str, e: ErrorTree) -> (formatted: FormattedError<'a>)
    requires
        well_formed(e@),
    ensures
        formatted@ == diagnose(input@, e@),
{
    format_tree(input, &e)
}

fn format_tree<'a>(input: &'a str, e: &ErrorTree) -> (formatted: FormattedError<'a>)
    requires
        well_formed(e@),
    ensures
        formatted@ == diagnose(input@, e@),
    decreases e,
{
    match e {
        ErrorTree::Base { location, kind } => {
            let formatted = FormattedError {
                src: input,
                span: SourceSpan { offset: *location, length: 0 },
                kind: *kind,
                others: Vec::new(),
            };
            assert(formatted@.others =~= Seq::empty());
            formatted
        },
        ErrorTree::Stack { base, contexts } => {
            let mut formatted = format_tree(input, base);
            let ghost inner = formatted@;
            let ghost crumbs = contexts@.map_values(
                |frame: (usize, StackContext)| breadcrumb(input@, frame),
            );
            let mut i: usize = 0;
            while i < contexts.len()
                invariant
                    0 <= i <= contexts.len(),
                    crumbs == contexts@.map_values(
                        |frame: (usize, StackContext)| breadcrumb(input@, frame),
                    ),
                    formatted@ == (Diagnostic { others: inner.others + crumbs.take(i as int), ..inner }),
                decreases contexts.len() - i,
            {
                let frame = contexts[i];
                let ghost before = formatted@;
                formatted.others.push(
                    FormattedErrorContext {
                        src: input,
                        span: SourceSpan { offset: frame.0, length: 0 },
                        context: frame.1,
                    },
                );
                assert(formatted@.others =~= before.others.push(breadcrumb(input@, frame)));
                assert(crumbs.take(i + 1) =~= crumbs.take(i as int).push(crumbs[i as int]));
                assert(formatted@.others =~= inner.others + crumbs.take(i + 1));
                i += 1;
            }
            assert(crumbs.take(i as int) =~= crumbs);
            formatted
        },
        ErrorTree::Alt(siblings) => {
            let ghost trees = e@->Alt_0;
            let ghost lens = trail_lengths(input@, trees);
            assert(well_formed(trees[0]));
            let mut best = format_tree(input, &siblings[0]);
            let mut i: usize = 1;
            assert(first_longest(lens.take(1)) == 0);
            while i < siblings.len()
                invariant
                    1 <= i <= siblings.len(),
                    trees == e@->Alt_0,
                    e@ is Alt,
                    well_formed(e@),
                    *e == ErrorTree::Alt(*siblings),
                    lens.len() == trees.len(),
                    forall|j: int|
                        0 <= j < trees.len() ==> #[trigger] lens[j] == diagnose(
                            input@,
                            trees[j],
                        ).others.len(),
                    0 <= first_longest(lens.take(i as int)) < i,
                    best@ == diagnose(input@, trees[first_longest(lens.take(i as int))]),
                decreases siblings.len() - i,
            {
                assert(well_formed(trees[i as int]));
                let candidate = format_tree(input, &siblings[i]);
                proof {
                    assert(lens.take(i + 1).drop_last() =~= lens.take(i as int));
                    assert(lens.take(i + 1).last() == lens[i as int]);
                    assert(lens.take(i as int)[first_longest(lens.take(i as int))]
                        == lens[first_longest(lens.take(i as int))]);
                }
                if candidate.others.len() > best.others.len() {
                    best = candidate;
                }
                i += 1;
            }
            assert(lens.take(i as int) =~= lens);
            best
        },
    }
}

} // verus!
