//! The agent: its system prompt, and the router that answers a prompt with
//! a tool (addition, subtraction, the calculator, recent memory) before the
//! language model is ever asked.

use vstd::prelude::*;
use crate::calc::{calc_error_message, calc_value, evaluate, CalcError};
use crate::number::{
    is_digit, int_decimal, lemma_i32_decimal_roundtrip, lemma_i64_decimal_roundtrip, parse_i32, parsed_i32,
    parsed_i64, push_int_decimal,
};
use crate::text::{
    chars_of, contains_chars, lemma_words_append_word, contains_seq, eq_ignore_ascii_case, equal_ignoring_ascii_case,
    is_whitespace, is_ws, lowercase, push_str_chars, skip_non_whitespace, skip_whitespace,
    skip_word, skip_ws, slice_chars, str_lowercase, string_of, trim_end_at, trim_end_position,
    words,
};

verus! {

// ----- integers in a prompt -----

/// The `i32` values of the words of a prompt that read as `i32`, in order.
pub open spec fn ints_of_words(ws: Seq<Seq<char>>) -> Seq<i32>
    decreases ws.len(),
{
    if ws.len() == 0 {
        seq![]
    } else {
        ints_of_words(ws.drop_last()) + match parsed_i32(ws.last()) {
            Some(v) => seq![v],
            None => seq![],
        }
    }
}

/// The integers of a prompt: its whitespace-separated words that parse as
/// `i32`, in order.
pub open spec fn prompt_ints(s: Seq<char>) -> Seq<i32> {
    ints_of_words(words(s))
}

/// The integers of `s`: its words that parse as `i32`, in order.
pub fn int_words(s: &Vec<char>) -> (r: Vec<i32>)
    ensures
        r@ == prompt_ints(s@),
{
    let mut ints: Vec<i32> = Vec::new();
    let mut cur: Vec<char> = Vec::new();
    let ghost mut done: Seq<Seq<char>> = seq![];
    let mut i: usize = 0;
    assert(s@.take(0) =~= Seq::<char>::empty());
    while i < s.len()
        invariant
            i <= s.len(),
            words(s@.take(i as int)) == (if cur@.len() > 0 {
                done.push(cur@)
            } else {
                done
            }),
            ints@ == ints_of_words(done),
            cur@.len() > 0 ==> i > 0 && !is_ws(s@[i - 1]),
            cur@.len() == 0 ==> (i == 0 || is_ws(s@[i - 1])),
        decreases s.len() - i,
    {
        let c = s[i];
        let ghost t = s@.take(i + 1);
        assert(t.drop_last() =~= s@.take(i as int));
        assert(t.last() == c);
        if is_whitespace(c) {
            if cur.len() > 0 {
                proof {
                    assert(done.push(cur@).drop_last() =~= done);
                }
                match parse_i32(&cur) {
                    Some(v) => {
                        ints.push(v);
                    },
                    None => {},
                }
                proof {
                    done = done.push(cur@);
                }
                cur = Vec::new();
            }
        } else if cur.len() > 0 {
            let ghost prev = cur@;
            cur.push(c);
            assert(done.push(prev).update(done.len() as int, prev.push(c)) =~= done.push(cur@));
        } else {
            cur.push(c);
            assert(cur@ =~= seq![c]);
        }
        i += 1;
    }
    assert(s@.take(s.len() as int) =~= s@);
    if cur.len() > 0 {
        proof {
            assert(done.push(cur@).drop_last() =~= done);
        }
        match parse_i32(&cur) {
            Some(v) => {
                ints.push(v);
            },
            None => {},
        }
    }
    ints
}

// ----- the arithmetic tools -----

/// The operands of a two-operand arithmetic request: when the lowercased
/// prompt holds `keyword` and the prompt has at least two integers, the
/// first two of them.
pub open spec fn operands(prompt: Seq<char>, lowered: Seq<char>, keyword: Seq<char>) -> Option<
    (i32, i32),
> {
    let ints = prompt_ints(prompt);
    if contains_seq(lowered, keyword) && ints.len() >= 2 {
        Some((ints[0], ints[1]))
    } else {
        None
    }
}

/// The operands that `prompt`, whose lowercase form is `lowered`, gives to
/// the tool named by `keyword`.
pub fn parse_operands(prompt: &str, lowered: &str, keyword: &str) -> (r: Option<(i32, i32)>)
    ensures
        r == operands(prompt@, lowered@, keyword@),
{
    let ints = int_words(&chars_of(prompt));
    let hay = chars_of(lowered);
    let needle = chars_of(keyword);
    if contains_chars(&hay, &needle) && ints.len() >= 2 {
        Some((ints[0], ints[1]))
    } else {
        None
    }
}

/// The operands of an addition request: a prompt that says "add" in any
/// case and holds at least two integers.
pub fn parse_add(input: &str) -> (r: Option<(i32, i32)>)
    ensures
        r == operands(input@, str_lowercase(input@), "add"@),
{
    let lowered = lowercase(input);
    parse_operands(input, lowered.as_str(), "add")
}

/// The operands of a subtraction request: a prompt that says "subtract" in
/// any case and holds at least two integers.
pub fn parse_subtract(input: &str) -> (r: Option<(i32, i32)>)
    ensures
        r == operands(input@, str_lowercase(input@), "subtract"@),
{
    let lowered = lowercase(input);
    parse_operands(input, lowered.as_str(), "subtract")
}

/// The arguments of the arithmetic tools.
#[derive(Clone, Copy, Debug, PartialEq, Eq, Structural)]
pub struct OperationArgs {
    pub x: i32,
    pub y: i32,
}

/// The error of the arithmetic tools: the result does not fit in an `i32`.
#[derive(Clone, Copy, Debug, PartialEq, Eq, Structural)]
pub struct MathToolError;

impl MathToolError {
    /// The error's message.
    pub fn message(&self) -> (r: &'static str)
        ensures
            r@ == "math tool failed"@,
    {
        "math tool failed"
    }
}

/// The tool that adds `x` and `y`.
#[derive(Clone, Copy, Debug, Default, PartialEq, Eq, Structural)]
pub struct AddTool;

/// The tool that subtracts `y` from `x`.
#[derive(Clone, Copy, Debug, Default, PartialEq, Eq, Structural)]
pub struct SubtractTool;

impl AddTool {
    /// The tool's registered name.
    pub fn name(&self) -> (r: &'static str)
        ensures
            r@ == "add"@,
    {
        "add"
    }

    /// The description given to the model.
    pub fn description(&self) -> (r: &'static str)
        ensures
            r@ == "Add x and y together"@,
    {
        "Add x and y together"
    }

    /// `x + y`, or the error when the sum leaves the range of `i32`.
    pub fn call(&self, args: OperationArgs) -> (r: Result<i32, MathToolError>)
        ensures
            i32::MIN <= args.x + args.y <= i32::MAX ==> r == Ok::<i32, MathToolError>(
                (args.x + args.y) as i32,
            ),
            !(i32::MIN <= args.x + args.y <= i32::MAX) ==> r == Err::<i32, MathToolError>(
                MathToolError,
            ),
    {
        match args.x.checked_add(args.y) {
            Some(v) => Ok(v),
            None => Err(MathToolError),
        }
    }
}

impl SubtractTool {
    /// The tool's registered name.
    pub fn name(&self) -> (r: &'static str)
        ensures
            r@ == "subtract"@,
    {
        "subtract"
    }

    /// The description given to the model.
    pub fn description(&self) -> (r: &'static str)
        ensures
            r@ == "Subtract y from x"@,
    {
        "Subtract y from x"
    }

    /// `x - y`, or the error when the difference leaves the range of `i32`.
    pub fn call(&self, args: OperationArgs) -> (r: Result<i32, MathToolError>)
        ensures
            i32::MIN <= args.x - args.y <= i32::MAX ==> r == Ok::<i32, MathToolError>(
                (args.x - args.y) as i32,
            ),
            !(i32::MIN <= args.x - args.y <= i32::MAX) ==> r == Err::<i32, MathToolError>(
                MathToolError,
            ),
    {
        match args.x.checked_sub(args.y) {
            Some(v) => Ok(v),
            None => Err(MathToolError),
        }
    }
}

/// The JSON schema of the arithmetic tools' arguments: two numbers `x` and `y`,
/// both required.
pub fn operation_args_schema() -> (r: &'static str)
    ensures
        r@ == "{\"type\":\"object\",\"properties\":{\"x\":{\"type\":\"number\"},\"y\":{\"type\":\"number\"}},\"required\":[\"x\",\"y\"]}"@,
{
    "{\"type\":\"object\",\"properties\":{\"x\":{\"type\":\"number\"},\"y\":{\"type\":\"number\"}},\"required\":[\"x\",\"y\"]}"
}

// ----- the calculator and memory tools -----

/// The expression of a calculator request: when the first word of the
/// prompt is `calc` or `calculate` in any ASCII case, the rest of the prompt
/// without surrounding whitespace.
pub open spec fn calc_request(prompt: Seq<char>) -> Option<Seq<char>> {
    let ws = skip_ws(prompt, 0);
    let we = skip_word(prompt, ws);
    let word = prompt.subrange(ws, we);
    if eq_ignore_ascii_case(word, "calc"@) || eq_ignore_ascii_case(word, "calculate"@) {
        let es = skip_ws(prompt, we);
        Some(prompt.subrange(es, trim_end_at(prompt, es, prompt.len() as int)))
    } else {
        None
    }
}

/// The expression that a calculator request asks for, if `prompt` is one.
pub fn calculator_expression(prompt: &str) -> (r: Option<String>)
    ensures
        match calc_request(prompt@) {
            Some(e) => r matches Some(x) && x@ == e,
            None => r is None,
        },
{
    let s = chars_of(prompt);
    let ws = skip_whitespace(&s, 0);
    let we = skip_non_whitespace(&s, ws);
    let word = slice_chars(&s, ws, we);
    let calc = chars_of("calc");
    let calculate = chars_of("calculate");
    if equal_ignoring_ascii_case(&word, &calc) || equal_ignoring_ascii_case(&word, &calculate) {
        let es = skip_whitespace(&s, we);
        let ee = trim_end_position(&s, es, s.len());
        let e = slice_chars(&s, es, ee);
        Some(string_of(&e))
    } else {
        None
    }
}

/// A past exchange that the memory tool can recall.
#[derive(Clone, Debug)]
pub struct MemoryRecord {
    pub created_at: String,
    pub user_prompt: String,
    pub response: String,
}

/// What the tools may consult besides the prompt: the most recent
/// exchanges, newest first.
#[derive(Clone, Debug)]
pub struct ToolContext {
    pub memory: Vec<MemoryRecord>,
}

impl ToolContext {
    /// A context with no memory.
    pub fn new() -> (r: ToolContext)
        ensures
            r.memory@.len() == 0,
    {
        ToolContext { memory: Vec::new() }
    }
}

impl Default for ToolContext {
    fn default() -> (r: ToolContext)
        ensures
            r.memory@.len() == 0,
    {
        ToolContext::new()
    }
}

/// The prompts of the remembered exchanges, newest first.
pub open spec fn remembered_prompts(ctx: ToolContext) -> Seq<Seq<char>> {
    ctx.memory@.map_values(|m: MemoryRecord| m.user_prompt@)
}

/// The question that makes the memory tool recall the last prompt.
pub open spec fn memory_question() -> Seq<char> {
    "what did i just ask"@
}

// ----- routing -----

/// The answer of the tool that handled a prompt.
#[derive(Clone, Debug)]
pub enum ToolOutcome {
    Add { x: i32, y: i32, value: i32 },
    Subtract { x: i32, y: i32, value: i32 },
    Calculator { expression: String, value: i64 },
    Memory { user_prompt: String },
}

/// `ToolOutcome` with its strings as character sequences.
pub enum ToolOutcomeView {
    Add { x: i32, y: i32, value: i32 },
    Subtract { x: i32, y: i32, value: i32 },
    Calculator { expression: Seq<char>, value: i64 },
    Memory { user_prompt: Seq<char> },
}

impl View for ToolOutcome {
    type V = ToolOutcomeView;

    open spec fn view(&self) -> ToolOutcomeView {
        match self {
            ToolOutcome::Add { x, y, value } => ToolOutcomeView::Add { x: *x, y: *y, value: *value },
            ToolOutcome::Subtract { x, y, value } => ToolOutcomeView::Subtract {
                x: *x,
                y: *y,
                value: *value,
            },
            ToolOutcome::Calculator { expression, value } => ToolOutcomeView::Calculator {
                expression: expression@,
                value: *value,
            },
            ToolOutcome::Memory { user_prompt } => ToolOutcomeView::Memory {
                user_prompt: user_prompt@,
            },
        }
    }
}

/// Why a tool that was chosen failed.
#[derive(Clone, Copy, Debug, PartialEq, Eq, Structural)]
pub enum ToolError {
    Math(MathToolError),
    Calculator(CalcError),
}

/// The message of a tool error: the failing tool's.
pub open spec fn tool_error_message(e: ToolError) -> Seq<char> {
    match e {
        ToolError::Math(_) => "math tool failed"@,
        ToolError::Calculator(c) => calc_error_message(c),
    }
}

impl ToolError {
    /// The error's message: the failing tool's.
    pub fn message(&self) -> (r: &'static str)
        ensures
            r@ == tool_error_message(*self),
    {
        match self {
            ToolError::Math(e) => e.message(),
            ToolError::Calculator(e) => e.message(),
        }
    }
}

/// Which tool answers `prompt` (whose lowercase form is `lowered`) and what it
/// answers: addition first, then subtraction, then the calculator, then the
/// memory; `Ok(None)` when no tool applies and the model must answer.
pub open spec fn route(prompt: Seq<char>, lowered: Seq<char>, remembered: Seq<Seq<char>>) -> Result<
    Option<ToolOutcomeView>,
    ToolError,
> {
    match operands(prompt, lowered, "add"@) {
        Some((x, y)) => if i32::MIN <= x + y <= i32::MAX {
            Ok(Some(ToolOutcomeView::Add { x, y, value: (x + y) as i32 }))
        } else {
            Err(ToolError::Math(MathToolError))
        },
        None => match operands(prompt, lowered, "subtract"@) {
            Some((x, y)) => if i32::MIN <= x - y <= i32::MAX {
                Ok(Some(ToolOutcomeView::Subtract { x, y, value: (x - y) as i32 }))
            } else {
                Err(ToolError::Math(MathToolError))
            },
            None => match calc_request(prompt) {
                Some(e) => match calc_value(e) {
                    Ok(v) => Ok(Some(ToolOutcomeView::Calculator { expression: e, value: v })),
                    Err(err) => Err(ToolError::Calculator(err)),
                },
                None => if contains_seq(lowered, memory_question()) && remembered.len() > 0 {
                    Ok(Some(ToolOutcomeView::Memory { user_prompt: remembered[0] }))
                } else {
                    Ok(None)
                },
            },
        },
    }
}

/// A routing result with its outcome seen as a view.
pub open spec fn routed_view(r: Result<Option<ToolOutcome>, ToolError>) -> Result<
    Option<ToolOutcomeView>,
    ToolError,
> {
    match r {
        Ok(Some(o)) => Ok(Some(o@)),
        Ok(None) => Ok(None),
        Err(e) => Err(e),
    }
}

/// Picks and runs the tool that answers `prompt`, whose lowercase form is
/// `lowered`.
pub fn route_tools(prompt: &str, lowered: &str, context: &ToolContext) -> (r: Result<
    Option<ToolOutcome>,
    ToolError,
>)
    ensures
        routed_view(r) == route(prompt@, lowered@, remembered_prompts(*context)),
{
    if let Some((x, y)) = parse_operands(prompt, lowered, "add") {
        return match AddTool.call(OperationArgs { x, y }) {
            Ok(value) => Ok(Some(ToolOutcome::Add { x, y, value })),
            Err(e) => Err(ToolError::Math(e)),
        };
    }
    if let Some((x, y)) = parse_operands(prompt, lowered, "subtract") {
        return match SubtractTool.call(OperationArgs { x, y }) {
            Ok(value) => Ok(Some(ToolOutcome::Subtract { x, y, value })),
            Err(e) => Err(ToolError::Math(e)),
        };
    }
    if let Some(expression) = calculator_expression(prompt) {
        return match evaluate(expression.as_str()) {
            Ok(value) => Ok(Some(ToolOutcome::Calculator { expression, value })),
            Err(e) => Err(ToolError::Calculator(e)),
        };
    }
    let hay = chars_of(lowered);
    let question = chars_of("what did i just ask");
    if contains_chars(&hay, &question) && context.memory.len() > 0 {
        let user_prompt = context.memory[0].user_prompt.clone();
        return Ok(Some(ToolOutcome::Memory { user_prompt }));
    }
    Ok(None)
}

// ----- the agent -----

/// What a tool outcome reads as after `Tool result: `.
pub open spec fn outcome_text(o: ToolOutcomeView) -> Seq<char> {
    match o {
        ToolOutcomeView::Add { value, .. } => int_decimal(value as int),
        ToolOutcomeView::Subtract { value, .. } => int_decimal(value as int),
        ToolOutcomeView::Calculator { value, .. } => int_decimal(value as int),
        ToolOutcomeView::Memory { user_prompt } => user_prompt,
    }
}

/// The reply that the agent gives for a tool outcome.
pub open spec fn tool_reply(o: ToolOutcomeView) -> Seq<char> {
    "Tool result: "@ + outcome_text(o)
}

/// The reply for a tool outcome: `Tool result: ` and the tool's value.
pub fn render_tool_reply(o: &ToolOutcome) -> (r: String)
    ensures
        r@ == tool_reply(o@),
{
    let mut out = String::new();
    push_str_chars(&mut out, "Tool result: ");
    match o {
        ToolOutcome::Add { value, .. } => push_int_decimal(&mut out, *value as i64),
        ToolOutcome::Subtract { value, .. } => push_int_decimal(&mut out, *value as i64),
        ToolOutcome::Calculator { value, .. } => push_int_decimal(&mut out, *value),
        ToolOutcome::Memory { user_prompt } => push_str_chars(&mut out, user_prompt.as_str()),
    }
    out
}

/// The instructions that the agent gives the model.
pub open spec fn default_system_prompt() -> Seq<char> {
    "You are a reliable Rust LLM assistant. Prefer tool usage for arithmetic and retrieval tasks."@
}

/// The agent: it answers what its tools can answer, and gives the model its
/// system prompt for the rest.
#[derive(Clone, Debug)]
pub struct AgentService {
    system_prompt: String,
}

impl AgentService {
    /// The agent's system prompt as a character sequence.
    pub closed spec fn system_prompt_view(&self) -> Seq<char> {
        self.system_prompt@
    }

    /// An agent with the default system prompt.
    pub fn new() -> (r: AgentService)
        ensures
            r.system_prompt_view() == default_system_prompt(),
    {
        AgentService {
            system_prompt: String::from_str(
                "You are a reliable Rust LLM assistant. Prefer tool usage for arithmetic and retrieval tasks.",
            ),
        }
    }

    /// The system prompt given to the model.
    pub fn system_prompt(&self) -> (r: &str)
        ensures
            r@ == self.system_prompt_view(),
    {
        self.system_prompt.as_str()
    }

    /// Answers `prompt` with a tool, `Tool result: ` followed by the tool's
    /// value, when one applies; `Ok(None)` when the model must answer; the
    /// tool's error when the chosen tool fails.
    pub fn run_tools_if_needed(&self, prompt: &str, context: &ToolContext) -> (r: Result<
        Option<String>,
        ToolError,
    >)
        ensures
            match route(prompt@, str_lowercase(prompt@), remembered_prompts(*context)) {
                Ok(Some(o)) => r matches Ok(Some(s)) && s@ == tool_reply(o),
                Ok(None) => r matches Ok(None),
                Err(e) => r == Err::<Option<String>, ToolError>(e),
            },
    {
        let lowered = lowercase(prompt);
        match route_tools(prompt, lowered.as_str(), context) {
            Ok(Some(o)) => Ok(Some(render_tool_reply(&o))),
            Ok(None) => Ok(None),
            Err(e) => Err(e),
        }
    }
}

impl Default for AgentService {
    fn default() -> (r: AgentService)
        ensures
            r.system_prompt_view() == default_system_prompt(),
    {
        AgentService::new()
    }
}

/// The value in a tool's reply reads back: for the arithmetic tools and the
/// calculator, the text after `Tool result: ` parses (as `i32`, resp. `i64`)
/// to the value that the tool computed; for the memory tool it is the
/// recalled prompt itself.
pub proof fn lemma_tool_reply_reads_back(o: ToolOutcomeView)
    ensures
        tool_reply(o).subrange(0, 13) == "Tool result: "@,
        match o {
            ToolOutcomeView::Add { value, .. } => parsed_i32(tool_reply(o).skip(13)) == Some(value),
            ToolOutcomeView::Subtract { value, .. } => parsed_i32(tool_reply(o).skip(13)) == Some(
                value,
            ),
            ToolOutcomeView::Calculator { value, .. } => parsed_i64(tool_reply(o).skip(13))
                == Some(value),
            ToolOutcomeView::Memory { user_prompt } => tool_reply(o).skip(13) == user_prompt,
        },
{
    reveal_strlit("Tool result: ");
    assert(tool_reply(o).skip(13) =~= outcome_text(o));
    assert(tool_reply(o).subrange(0, 13) =~= "Tool result: "@);
    match o {
        ToolOutcomeView::Add { value, .. } => lemma_i32_decimal_roundtrip(value),
        ToolOutcomeView::Subtract { value, .. } => lemma_i32_decimal_roundtrip(value),
        ToolOutcomeView::Calculator { value, .. } => lemma_i64_decimal_roundtrip(value),
        ToolOutcomeView::Memory { .. } => {},
    }
}

/// Each word is counted: adding a word to a list of words adds its integer,
/// if it reads as one, at the end, whatever came before (repeats included).
pub proof fn lemma_ints_of_words_push(ws: Seq<Seq<char>>, w: Seq<char>)
    ensures
        ints_of_words(ws.push(w)) == (match parsed_i32(w) {
            Some(v) => ints_of_words(ws).push(v),
            None => ints_of_words(ws),
        }),
{
    assert(ws.push(w).drop_last() =~= ws);
    match parsed_i32(w) {
        Some(v) => {
            assert(ints_of_words(ws) + seq![v] =~= ints_of_words(ws).push(v));
        },
        None => {
            assert(ints_of_words(ws) + Seq::<i32>::empty() =~= ints_of_words(ws));
        },
    }
}

/// Writing a space and an integer after a prompt adds that integer as the
/// prompt's last integer, however often it occurred before; writing a space
/// and a word that is no integer adds none.
pub proof fn lemma_prompt_ints_append(s: Seq<char>, w: Seq<char>)
    requires
        w.len() > 0,
        forall|i: int| 0 <= i < w.len() ==> !is_ws(#[trigger] w[i]),
    ensures
        prompt_ints(s.push(' ') + w) == (match parsed_i32(w) {
            Some(v) => prompt_ints(s).push(v),
            None => prompt_ints(s),
        }),
{
    lemma_words_append_word(s, w);
    lemma_ints_of_words_push(words(s), w);
}

/// A word that reads as an `i32` holds no whitespace.
pub proof fn lemma_integer_word_has_no_whitespace(w: Seq<char>)
    requires
        parsed_i32(w) is Some,
    ensures
        w.len() > 0,
        forall|i: int| 0 <= i < w.len() ==> !is_ws(#[trigger] w[i]),
{
    let signed = w[0] == '+' || w[0] == '-';
    assert forall|i: int| 0 <= i < w.len() implies !is_ws(#[trigger] w[i]) by {
        if signed {
            if i > 0 {
                assert(w.drop_first()[i - 1] == w[i]);
                assert(is_digit(w.drop_first()[i - 1]));
            }
        } else {
            assert(is_digit(w[i]));
        }
    }
}

/// Writing a space and an integer word after any prompt makes that integer
/// the prompt's last integer, whatever integers came before.
pub proof fn lemma_prompt_ints_append_integer(s: Seq<char>, w: Seq<char>, v: i32)
    requires
        parsed_i32(w) == Some(v),
    ensures
        prompt_ints(s.push(' ') + w) == prompt_ints(s).push(v),
{
    lemma_integer_word_has_no_whitespace(w);
    lemma_prompt_ints_append(s, w);
}

/// The memory tool recalls the newest exchange: whenever routing answers
/// with the memory tool, the memory is not empty and the recalled prompt is
/// that of its first (newest) record, however many records there are; and
/// the memory tool answers whenever the question is asked, no other tool
/// applies and something is remembered.
pub proof fn lemma_memory_recalls_newest(prompt: Seq<char>, lowered: Seq<char>, ctx: ToolContext)
    ensures
        route(prompt, lowered, remembered_prompts(ctx)) matches Ok(
            Some(ToolOutcomeView::Memory { user_prompt }),
        ) ==> ctx.memory@.len() > 0 && user_prompt == ctx.memory@[0].user_prompt@,
        (operands(prompt, lowered, "add"@) is None && operands(prompt, lowered, "subtract"@) is None
            && calc_request(prompt) is None && contains_seq(lowered, memory_question())
            && ctx.memory@.len() > 0) ==> route(prompt, lowered, remembered_prompts(ctx)) == Ok::<
            Option<ToolOutcomeView>,
            ToolError,
        >(Some(ToolOutcomeView::Memory { user_prompt: ctx.memory@[0].user_prompt@ })),
{
}

/// What each tool answers, in terms of the prompt: addition gives the sum
/// and subtraction the difference of the prompt's first two integers, and
/// the calculator gives the value of the text after `calc`.
pub proof fn lemma_route_answers(prompt: Seq<char>, lowered: Seq<char>, remembered: Seq<Seq<char>>)
    ensures
        route(prompt, lowered, remembered) matches Ok(Some(ToolOutcomeView::Add { x, y, value }))
            ==> prompt_ints(prompt).len() >= 2 && x == prompt_ints(prompt)[0] && y == prompt_ints(
            prompt,
        )[1] && value == x + y && contains_seq(lowered, "add"@),
        route(prompt, lowered, remembered) matches Ok(
            Some(ToolOutcomeView::Subtract { x, y, value }),
        ) ==> prompt_ints(prompt).len() >= 2 && x == prompt_ints(prompt)[0] && y == prompt_ints(
            prompt,
        )[1] && value == x - y && contains_seq(lowered, "subtract"@),
        route(prompt, lowered, remembered) matches Ok(
            Some(ToolOutcomeView::Calculator { expression, value }),
        ) ==> calc_request(prompt) == Some(expression) && calc_value(expression) == Ok::<
            i64,
            CalcError,
        >(value),
{
}

} // verus!
