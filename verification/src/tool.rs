//! Tools an agent can call, and the calculator tool.
use vstd::prelude::*;

use crate::error::{Failure, NuroError};
use crate::json::{as_str_spec, get_spec, Json, JsonValue};
use crate::text::{chars_of, concat_str};

verus! {

/// What a tool is given besides its input (nothing yet).
#[derive(Debug)]
pub struct ToolContext {}

impl ToolContext {
    /// An empty context.
    pub fn new() -> (c: ToolContext) {
        ToolContext {  }
    }
}

/// What a tool returns.
#[derive(Debug)]
pub struct ToolOutput {
    pub content: JsonValue,
}

impl ToolOutput {
    /// An output with the given content.
    pub fn new(content: JsonValue) -> (r: ToolOutput)
        ensures
            r.content@ == content@,
    {
        ToolOutput { content }
    }
}

/// What `meval::eval_str` makes of an expression, as JSON: the text of the number
/// (`None` when it is not finite, which JSON renders as `null`), or the text of its error.
pub uninterp spec fn evaluated(expr: Seq<char>) -> Result<Option<Seq<char>>, Seq<char>>;

/// Whether `c` is one of the characters `meval`'s tokenizer skips as space: space, tab,
/// carriage return and line feed.
pub open spec fn is_line_space(c: char) -> bool {
    c == ' ' || c == '\t' || c == '\r' || c == '\n'
}

/// A text that is not empty and holds only such space. `meval::eval_str` panics on it:
/// its tokenizer skips the space and then finds no input left.
pub open spec fn only_line_space(s: Seq<char>) -> bool {
    s.len() > 0 && forall|i: int| 0 <= i < s.len() ==> #[trigger] is_line_space(s[i])
}

/// Whether a text is not empty and holds only space, tab, carriage return and line feed.
pub fn is_only_line_space(s: &str) -> (b: bool)
    ensures
        b == only_line_space(s@),
{
    let cs = chars_of(s);
    if cs.len() == 0 {
        return false;
    }
    let mut i: usize = 0;
    while i < cs.len()
        invariant
            cs@ == s@,
            i <= cs@.len(),
            forall|k: int| 0 <= k < i ==> #[trigger] is_line_space(cs@[k]),
        decreases cs@.len() - i,
    {
        let c = cs[i];
        if !(c == ' ' || c == '\t' || c == '\r' || c == '\n') {
            assert(!is_line_space(s@[i as int]));
            return false;
        }
        i = i + 1;
    }
    true
}

/// Evaluates `expr` with `meval::eval_str` and renders a finite result as a JSON number
/// with `serde_json` (a non-finite one is `None`); an error is rendered with its
/// `Display`. The contract claims only that the result is a function of the expression.
/// The rendering stays in this wrapper because the evaluated `f64` cannot be held by the
/// library, which has no floating-point values. `meval` panics on a text of only space,
/// tab, carriage return and line feed, so such a text is not admitted.
#[verifier::external_body]
fn eval_expression(expr: &str) -> (r: Result<Option<String>, String>)
    requires
        !only_line_space(expr@),
    ensures
        match r {
            Ok(Some(t)) => evaluated(expr@) == Ok::<_, Seq<char>>(Some(t@)),
            Ok(None) => evaluated(expr@) == Ok::<Option<Seq<char>>, Seq<char>>(None),
            Err(m) => evaluated(expr@) == Err::<Option<Seq<char>>, _>(m@),
        },
{
    match meval::eval_str(expr) {
        Ok(value) => match serde_json::Value::from(value) {
            serde_json::Value::Number(n) => Ok(Some(n.to_string())),
            _ => Ok(None),
        },
        Err(e) => Err(format!("{}", e)),
    }
}

/// The error the calculator gives for an expression of only space, tab, carriage return and
/// line feed, which it does not hand to the evaluator.
pub open spec fn blank_expression_failure() -> Failure {
    Failure::Tool("failed to evaluate expression: the expression is blank"@)
}

/// The calculator's result for an evaluation: the number (or `null`), or a tool error
/// `failed to evaluate expression: <error>`.
pub open spec fn calculator_spec(e: Result<Option<Seq<char>>, Seq<char>>) -> Result<Json, Failure> {
    match e {
        Ok(Some(t)) => Ok(Json::Number(t)),
        Ok(None) => Ok(Json::Null),
        Err(m) => Err(Failure::Tool("failed to evaluate expression: "@ + m)),
    }
}

/// The model of a tool's result.
pub open spec fn tool_result_spec(r: Result<ToolOutput, NuroError>) -> Result<Json, Failure> {
    match r {
        Ok(o) => Ok(o.content@),
        Err(e) => Err(e@),
    }
}

/// The calculator's answer for an evaluation result; see [`calculator_spec`].
pub fn calculator_output(evaluation: Result<Option<String>, String>) -> (r: Result<ToolOutput, NuroError>)
    ensures
        tool_result_spec(r) == calculator_spec(
            match evaluation {
                Ok(Some(t)) => Ok(Some(t@)),
                Ok(None) => Ok(None),
                Err(m) => Err(m@),
            },
        ),
{
    match evaluation {
        Ok(Some(t)) => Ok(ToolOutput::new(JsonValue::Number(t))),
        Ok(None) => Ok(ToolOutput::new(JsonValue::Null)),
        Err(m) => Err(NuroError::Tool(concat_str("failed to evaluate expression: ", m.as_str()))),
    }
}

/// The expression a calculator input asks for: its `expression` member, when it is a
/// string.
pub open spec fn expression_of(input: Json) -> Option<Seq<char>> {
    as_str_spec(get_spec(input, "expression"@))
}

/// A tool that evaluates arithmetic expressions such as `1+2*3`.
#[derive(Debug)]
pub struct CalculatorTool;

impl CalculatorTool {
    /// The calculator.
    pub fn new() -> (t: CalculatorTool) {
        CalculatorTool
    }

    /// The tool's name: `calculator`.
    pub fn name(&self) -> (s: &'static str)
        ensures
            s@ == "calculator"@,
    {
        "calculator"
    }

    /// The tool's description.
    pub fn description(&self) -> (s: &'static str)
        ensures
            s@ == "Evaluate a mathematical expression, e.g. '1+2*3'"@,
    {
        "Evaluate a mathematical expression, e.g. '1+2*3'"
    }

    /// Evaluates the input's `expression`. Fails with invalid input when there is no
    /// string `expression`, with the tool error `failed to evaluate expression: the
    /// expression is blank` when it holds only space, tab, carriage return and line feed,
    /// and with a tool error when it does not evaluate.
    pub fn execute(&self, input: &JsonValue, ctx: &ToolContext) -> (r: Result<ToolOutput, NuroError>)
        ensures
            match expression_of(input@) {
                None => tool_result_spec(r) == Err::<Json, _>(
                    Failure::InvalidInput("missing 'expression' field"@),
                ),
                Some(expr) => if only_line_space(expr) {
                    tool_result_spec(r) == Err::<Json, _>(blank_expression_failure())
                } else {
                    tool_result_spec(r) == calculator_spec(evaluated(expr))
                },
            },
    {
        let expr = match input.get("expression") {
            Some(v) => match v.as_str() {
                Some(e) => e,
                None => {
                    return Err(NuroError::InvalidInput(String::from_str("missing 'expression' field")));
                },
            },
            None => {
                return Err(NuroError::InvalidInput(String::from_str("missing 'expression' field")));
            },
        };
        if is_only_line_space(expr) {
            return Err(
                NuroError::Tool(String::from_str("failed to evaluate expression: the expression is blank")),
            );
        }
        calculator_output(eval_expression(expr))
    }
}

} // verus!
