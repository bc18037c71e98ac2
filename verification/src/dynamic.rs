//! The pass that runs the code blocks tagged `dynamic` and puts what they
//! print in their place.
//!
//! Running a block is the caller's work: it takes the requests from
//! [`dynamic_requests`], runs each under the unprivileged account with the
//! command of [`sandbox_command`], and hands what came of it to
//! [`apply_dynamic`].

use crate::rewrite::{
    codes_view, list_tagged, replace_tagged, replaced, replacements_view, tagged, Code, CodeView,
};
use crate::text::views;
use crate::tree::{blocks_view, Block, BlockView};
use vstd::prelude::*;
use vstd::string::*;

verus! {

/// The class tag of the code blocks that are run.
pub const DYNAMIC_TAG: &'static str = "dynamic";

/// The class tag of the code blocks that print a block of a document.
pub const FRAGMENT_TAG: &'static str = "pandoc_ast";

/// The attribute that names the interpreter of a code block.
pub const INTERPRETER_KEY: &'static str = "interpreter";

/// The interpreter of a code block that names none.
pub const DEFAULT_INTERPRETER: &'static str = "bash";

/// What stands in place of the text of a code block that failed.
pub const FAILURE_TEXT: &'static str = "Code block failed to execute, check server logs.";

/// The mode of the file that holds the code to run: readable and executable by
/// others, and by nobody else.
pub const SCRIPT_MODE: u32 = 5;

/// A code block to run.
#[derive(Debug, PartialEq, Eq)]
pub struct DynamicRequest {
    /// The program that runs the code.
    pub interpreter: String,
    /// The code.
    pub source: String,
    /// Whether the code prints a block of a document rather than text.
    pub fragment: bool,
}

/// The view of a [`DynamicRequest`].
pub struct DynamicRequestView {
    pub interpreter: Seq<char>,
    pub source: Seq<char>,
    pub fragment: bool,
}

impl View for DynamicRequest {
    type V = DynamicRequestView;

    open spec fn view(&self) -> DynamicRequestView {
        DynamicRequestView {
            interpreter: self.interpreter@,
            source: self.source@,
            fragment: self.fragment,
        }
    }
}

/// The views of a sequence of requests.
pub open spec fn requests_view(s: Seq<DynamicRequest>) -> Seq<DynamicRequestView> {
    Seq::new(s.len(), |i: int| s[i]@)
}

/// What came of running a code block.
#[derive(Debug, PartialEq, Eq)]
pub enum Outcome {
    /// The interpreter failed, or did not end in time, or could not be run
    /// under the unprivileged account.
    Failed,
    /// The interpreter printed this text.
    Output(String),
    /// The interpreter printed this block.
    Fragment(Block),
}

/// The view of an [`Outcome`].
pub enum OutcomeView {
    Failed,
    Output(Seq<char>),
    Fragment(BlockView),
}

impl View for Outcome {
    type V = OutcomeView;

    open spec fn view(&self) -> OutcomeView {
        match self {
            Outcome::Failed => OutcomeView::Failed,
            Outcome::Output(s) => OutcomeView::Output(s@),
            Outcome::Fragment(b) => OutcomeView::Fragment(b.view()),
        }
    }
}

/// The views of a sequence of outcomes.
pub open spec fn outcomes_view(s: Seq<Outcome>) -> Seq<OutcomeView> {
    Seq::new(s.len(), |i: int| s[i]@)
}

/// The request that a code block makes: its interpreter is what its attribute
/// `interpreter` names, or `bash`.
pub open spec fn request_of(code: CodeView) -> DynamicRequestView {
    DynamicRequestView {
        interpreter: match code.attr.value_of(INTERPRETER_KEY@) {
            Some(name) => name,
            None => DEFAULT_INTERPRETER@,
        },
        source: code.text,
        fragment: code.attr.has_class(FRAGMENT_TAG@),
    }
}

/// The requests of a sequence of code blocks.
pub open spec fn requests_of(codes: Seq<CodeView>) -> Seq<DynamicRequestView> {
    Seq::new(codes.len(), |i: int| request_of(codes[i]))
}

/// What stands in place of a code block after it was run: the block with the
/// failure text where it failed, the block with what was printed where it
/// printed text, and the printed block where it printed one.
pub open spec fn outcome_block(code: CodeView, outcome: OutcomeView) -> BlockView {
    match outcome {
        OutcomeView::Failed => BlockView::CodeBlock(code.attr, FAILURE_TEXT@),
        OutcomeView::Output(text) => BlockView::CodeBlock(code.attr, text),
        OutcomeView::Fragment(block) => block,
    }
}

/// What stands in place of each code block: for the block at place `i` what
/// [`outcome_block`] makes of the outcome at place `i`; nothing for a block
/// that has no outcome.
pub open spec fn outcome_blocks(codes: Seq<CodeView>, outcomes: Seq<OutcomeView>) -> Seq<
    Option<BlockView>,
> {
    Seq::new(
        codes.len(),
        |i: int|
            if 0 <= i < outcomes.len() {
                Some(outcome_block(codes[i], outcomes[i]))
            } else {
                None
            },
    )
}

/// The document after its code was run with these outcomes.
pub open spec fn dynamic_applied(blocks: Seq<BlockView>, outcomes: Seq<OutcomeView>) -> Seq<
    BlockView,
> {
    replaced(blocks, DYNAMIC_TAG@, outcome_blocks(tagged(blocks, DYNAMIC_TAG@), outcomes), 0)
}

/// The code blocks of a document that are to be run, in the order of the document.
pub fn dynamic_requests(blocks: &Vec<Block>) -> (r: Vec<DynamicRequest>)
    ensures
        requests_view(r@) == requests_of(tagged(blocks_view(blocks@), DYNAMIC_TAG@)),
{
    let codes = list_tagged(blocks, DYNAMIC_TAG);
    let mut out: Vec<DynamicRequest> = Vec::new();
    let mut i: usize = 0;
    while i < codes.len()
        invariant
            i <= codes.len(),
            out.len() == i,
            forall|k: int| 0 <= k < i ==> out[k]@ == request_of(codes[k]@),
        decreases codes.len() - i,
    {
        let code = &codes[i];
        let interpreter = match code.attr.value_of(INTERPRETER_KEY) {
            Some(name) => name.clone(),
            None => DEFAULT_INTERPRETER.to_owned(),
        };
        out.push(
            DynamicRequest {
                interpreter,
                source: code.text.clone(),
                fragment: code.attr.has_class(FRAGMENT_TAG),
            },
        );
        i += 1;
    }
    assert(requests_view(out@) =~= requests_of(codes_view(codes@)));
    out
}

/// The command that runs the code in the file `script` with `interpreter`
/// under the unprivileged account `nobody` and group `nogroup`.
pub fn sandbox_command(interpreter: &str, script: &str) -> (r: Vec<String>)
    ensures
        views(r@) == seq![
            "sudo"@,
            "-u"@,
            "nobody"@,
            "-g"@,
            "nogroup"@,
            interpreter@,
            script@,
        ],
{
    let mut out: Vec<String> = Vec::new();
    out.push("sudo".to_owned());
    out.push("-u".to_owned());
    out.push("nobody".to_owned());
    out.push("-g".to_owned());
    out.push("nogroup".to_owned());
    out.push(interpreter.to_owned());
    out.push(script.to_owned());
    assert(views(out@) =~= seq![
        "sudo"@,
        "-u"@,
        "nobody"@,
        "-g"@,
        "nogroup"@,
        interpreter@,
        script@,
    ]);
    out
}

/// What came of a run, from what the caller saw of it: whether the interpreter
/// ended well and in time, what it printed, and, for a request that prints a
/// block, the block that was read from that. A request that prints a block and
/// printed none that could be read has failed.
pub fn outcome_of(
    request: &DynamicRequest,
    succeeded: bool,
    output: String,
    fragment: Option<Block>,
) -> (r: Outcome)
    ensures
        r@ == if !succeeded {
            OutcomeView::Failed
        } else if request@.fragment {
            match fragment {
                Some(b) => OutcomeView::Fragment(b.view()),
                None => OutcomeView::Failed,
            }
        } else {
            OutcomeView::Output(output@)
        },
{
    if !succeeded {
        Outcome::Failed
    } else if request.fragment {
        match fragment {
            Some(b) => Outcome::Fragment(b),
            None => Outcome::Failed,
        }
    } else {
        Outcome::Output(output)
    }
}

fn block_for(code: &Code, outcome: &Outcome) -> (r: Block)
    ensures
        r.view() == outcome_block(code@, outcome@),
{
    match outcome {
        Outcome::Failed => Block::CodeBlock(code.attr.duplicate(), FAILURE_TEXT.to_owned()),
        Outcome::Output(text) => Block::CodeBlock(code.attr.duplicate(), text.clone()),
        Outcome::Fragment(block) => block.duplicate(),
    }
}

/// Puts the outcomes of the runs into the document: the outcome at place `i`
/// belongs to the request at place `i` of [`dynamic_requests`]. A code block
/// that has no outcome stays as it is.
pub fn apply_dynamic(blocks: &Vec<Block>, outcomes: &Vec<Outcome>) -> (r: Vec<Block>)
    ensures
        blocks_view(r@) == dynamic_applied(blocks_view(blocks@), outcomes_view(outcomes@)),
{
    let codes = list_tagged(blocks, DYNAMIC_TAG);
    let mut with: Vec<Option<Block>> = Vec::new();
    let mut i: usize = 0;
    while i < codes.len()
        invariant
            i <= codes.len(),
            with.len() == i,
            forall|k: int|
                0 <= k < i ==> replacements_view(with@)[k] == outcome_blocks(
                    codes_view(codes@),
                    outcomes_view(outcomes@),
                )[k],
        decreases codes.len() - i,
    {
        let ghost before = replacements_view(with@);
        if i < outcomes.len() {
            with.push(Some(block_for(&codes[i], &outcomes[i])));
        } else {
            with.push(None);
        }
        assert forall|k: int| 0 <= k < i + 1 implies replacements_view(with@)[k] == outcome_blocks(
            codes_view(codes@),
            outcomes_view(outcomes@),
        )[k] by {
            if k < i {
                assert(replacements_view(with@)[k] == before[k]);
            }
        }
        i += 1;
    }
    assert(replacements_view(with@) =~= outcome_blocks(
        codes_view(codes@),
        outcomes_view(outcomes@),
    ));
    replace_tagged(blocks, DYNAMIC_TAG, &with)
}

} // verus!
