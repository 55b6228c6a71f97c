//! Decisions that rest on what an expression or a process variable
//! evaluated to: job categories, listener names and skip expressions.
use vstd::prelude::*;
use crate::error::FlowableError;
use crate::text::{cat, cat3, owned, push_char, trim, trim_str, decimal_i64, i64_to_decimal};

verus! {

/// A value an expression or variable evaluated to.
#[derive(Debug)]
pub enum ExpressionValue {
    Null,
    Bool(bool),
    Number(i64),
    Text(String),
    /// A list or an object, with its JSON text.
    Structured(String),
}

/// Whether `t` (trimmed) is written as an expression `${...}`.
pub open spec fn is_expression_text(t: Seq<char>) -> bool {
    t.len() >= 2 && t[0] == '$' && t[1] == '{' && t.last() == '}'
}

fn expression_text(t: &str) -> (r: bool)
    ensures
        r == is_expression_text(t@),
{
    let n = t.unicode_len();
    n >= 2 && t.get_char(0) == '$' && t.get_char(1) == '{' && t.get_char(n - 1) == '}'
}

/// The category a value stands for: trimmed non-blank text, a number's or
/// a boolean's text; nothing for null, blank text, lists and objects.
pub open spec fn category_of_value(v: ExpressionValue) -> Option<Seq<char>> {
    match v {
        ExpressionValue::Null => None,
        ExpressionValue::Text(s) => if trim(s@).len() == 0 { None } else { Some(trim(s@)) },
        ExpressionValue::Number(n) => Some(decimal_i64(n as int)),
        ExpressionValue::Bool(b) => Some(if b { "true"@ } else { "false"@ }),
        ExpressionValue::Structured(_) => None,
    }
}

pub fn category_value_to_string(value: &ExpressionValue) -> (r: Option<String>)
    ensures
        match r {
            Some(s) => category_of_value(*value) == Some(s@),
            None => category_of_value(*value) is None,
        },
{
    proof {
        reveal_strlit("true");
        reveal_strlit("false");
    }
    match value {
        ExpressionValue::Null => None,
        ExpressionValue::Text(s) => {
            let t = trim_str(s.as_str());
            if t.unicode_len() == 0 {
                None
            } else {
                Some(owned(t))
            }
        },
        ExpressionValue::Number(n) => Some(i64_to_decimal(*n)),
        ExpressionValue::Bool(b) => Some(owned(if *b { "true" } else { "false" })),
        ExpressionValue::Structured(_) => None,
    }
}

pub open spec fn opt_value(o: Option<&ExpressionValue>) -> Option<ExpressionValue> {
    match o {
        Some(v) => Some(*v),
        None => None,
    }
}

/// The job category a `jobCategory` text gives: nothing when blank; an
/// expression gives the category of its value (`value`, `None` when it could
/// not be evaluated); literal text is the category, trimmed.
pub open spec fn category_of_text(text: Seq<char>, value: Option<ExpressionValue>) -> Option<Seq<char>> {
    let t = trim(text);
    if t.len() == 0 {
        None
    } else if is_expression_text(t) {
        match value {
            Some(v) => category_of_value(v),
            None => None,
        }
    } else {
        Some(t)
    }
}

pub fn resolve_job_category_text(text: &str, value: Option<&ExpressionValue>) -> (r: Option<String>)
    ensures
        match r {
            Some(s) => category_of_text(text@, opt_value(value)) == Some(s@),
            None => category_of_text(text@, opt_value(value)) is None,
        },
{
    let t = trim_str(text);
    if t.unicode_len() == 0 {
        return None;
    }
    if expression_text(t) {
        return match value {
            Some(v) => category_value_to_string(v),
            None => None,
        };
    }
    Some(owned(t))
}

/// The category text of an element: that of the first of its `jobCategory`
/// extensions whose text is not blank, trimmed.
pub open spec fn first_category_text(texts: Seq<Option<String>>) -> Option<Seq<char>>
    decreases texts.len(),
{
    if texts.len() == 0 {
        None
    } else if texts[0] is Some && trim(texts[0]->0@).len() > 0 {
        Some(trim(texts[0]->0@))
    } else {
        first_category_text(texts.drop_first())
    }
}

/// The job category of an element from its `jobCategory` extension texts:
/// the first non-blank one wins.
pub fn resolve_job_category(category_texts: &Vec<Option<String>>, value: Option<&ExpressionValue>) -> (r: Option<String>)
    ensures
        match r {
            Some(s) => first_category_text(category_texts@) matches Some(t) && category_of_text(t, opt_value(value)) == Some(s@),
            None => first_category_text(category_texts@) is None || category_of_text(first_category_text(category_texts@)->0,
                opt_value(value)) is None,
        },
{
    let mut i: usize = 0;
    proof {
        assert(category_texts@.skip(0) =~= category_texts@);
    }
    while i < category_texts.len()
        invariant
            0 <= i <= category_texts.len(),
            first_category_text(category_texts@) == first_category_text(category_texts@.skip(i as int)),
        decreases category_texts.len() - i,
    {
        proof {
            assert(category_texts@.skip(i as int).drop_first() =~= category_texts@.skip(i + 1));
            assert(category_texts@.skip(i as int)[0] == category_texts@[i as int]);
        }
        if let Some(text) = &category_texts[i] {
            let t = trim_str(text.as_str());
            if t.unicode_len() > 0 {
                proof {
                    crate::text::lemma_trim_idempotent(text@);
                }
                return resolve_job_category_text(t, value);
            }
        }
        i = i + 1;
    }
    proof {
        assert(category_texts@.skip(i as int) =~= Seq::<Option<String>>::empty());
    }
    None
}

/// The registry name a listener resolves to: `class` (or no type) names the
/// implementation itself; an expression `${...}` must evaluate to text, which
/// is the name; other text is the name.
pub open spec fn listener_name_spec(impl_type: Seq<char>, implementation: Seq<char>, value: Option<ExpressionValue>) -> Option<Seq<char>> {
    if impl_type == "class"@ || impl_type.len() == 0 {
        Some(implementation)
    } else if is_expression_text(implementation) {
        match value {
            Some(ExpressionValue::Text(s)) => Some(s@),
            _ => None,
        }
    } else {
        Some(implementation)
    }
}

/// Resolves a listener's registry name; `kind` names the listener kind in
/// errors (`executionListener`, `taskListener`).
pub fn resolve_listener_name(
    kind: &str,
    impl_type: &str,
    implementation: &str,
    value: Option<&ExpressionValue>,
) -> (r: Result<String, FlowableError>)
    ensures
        match r {
            Ok(s) => listener_name_spec(impl_type@, implementation@, opt_value(value)) == Some(s@),
            Err(e) => listener_name_spec(impl_type@, implementation@, opt_value(value)) is None && e is ExecutionError,
        },
{
    proof {
        reveal_strlit("class");
    }
    if crate::ordering::str_eq(impl_type, "class") || impl_type.unicode_len() == 0 {
        return Ok(owned(implementation));
    }
    if expression_text(implementation) {
        match value {
            None => {
                let mut m = cat(kind, " could not resolve delegateExpression '");
                m.append(implementation);
                m.append("'");
                Err(FlowableError::ExecutionError(m))
            },
            Some(ExpressionValue::Text(s)) => Ok(s.clone()),
            Some(_) => {
                let mut m = cat(kind, " delegateExpression '");
                m.append(implementation);
                m.append("' resolved to a non-string value");
                Err(FlowableError::ExecutionError(m))
            },
        }
    } else {
        Ok(owned(implementation))
    }
}

/// Whether skip expressions are enabled: by the `_ACTIVITI_...` variable if
/// set, else by the `_FLOWABLE_...` one; unset means disabled, and a
/// non-boolean value is an error.
pub open spec fn skip_enabled_spec(activiti: Option<ExpressionValue>, flowable: Option<ExpressionValue>) -> Option<bool> {
    match activiti {
        Some(ExpressionValue::Bool(b)) => Some(b),
        Some(_) => None,
        None => match flowable {
            Some(ExpressionValue::Bool(b)) => Some(b),
            Some(_) => None,
            None => Some(false),
        },
    }
}

/// Lower-case hexadecimal digit of `d` (0..=15).
pub open spec fn hex_digit(d: int) -> char {
    if d < 10 {
        (d + 48) as char
    } else {
        (d + 87) as char
    }
}

/// How JSON text writes `c` inside a string: quotes and backslashes
/// escaped, control characters as short escapes or `\u00XX`, everything
/// else as it is.
pub open spec fn json_escape_char(c: char) -> Seq<char> {
    if c == '"' {
        seq!['\\', '"']
    } else if c == '\\' {
        seq!['\\', '\\']
    } else if c == '\n' {
        seq!['\\', 'n']
    } else if c == '\r' {
        seq!['\\', 'r']
    } else if c == '\t' {
        seq!['\\', 't']
    } else if c == '\u{8}' {
        seq!['\\', 'b']
    } else if c == '\u{c}' {
        seq!['\\', 'f']
    } else if (c as int) < 32 {
        seq!['\\', 'u', '0', '0', hex_digit((c as int) / 16), hex_digit((c as int) % 16)]
    } else {
        seq![c]
    }
}

/// The characters of `s` as JSON text writes them inside a string.
pub open spec fn json_escape(s: Seq<char>) -> Seq<char>
    decreases s.len(),
{
    if s.len() == 0 {
        Seq::empty()
    } else {
        json_escape(s.drop_last()) + json_escape_char(s.last())
    }
}

/// The compact JSON text of a value.
pub open spec fn json_text(v: ExpressionValue) -> Seq<char> {
    match v {
        ExpressionValue::Null => seq!['n', 'u', 'l', 'l'],
        ExpressionValue::Bool(b) => if b {
            seq!['t', 'r', 'u', 'e']
        } else {
            seq!['f', 'a', 'l', 's', 'e']
        },
        ExpressionValue::Number(n) => decimal_i64(n as int),
        ExpressionValue::Text(t) => seq!['"'] + json_escape(t@) + seq!['"'],
        ExpressionValue::Structured(t) => t@,
    }
}

fn hex_char(d: u32) -> (r: char)
    requires
        d < 16,
    ensures
        r == hex_digit(d as int),
{
    if d < 10 {
        ((d + 48) as u8) as char
    } else {
        ((d + 87) as u8) as char
    }
}

fn push_json_escaped(out: &mut String, c: char)
    ensures
        final(out)@ == old(out)@ + json_escape_char(c),
{
    let v = c as u32;
    if c == '"' {
        push_char(out, '\\');
        push_char(out, '"');
    } else if c == '\\' {
        push_char(out, '\\');
        push_char(out, '\\');
    } else if c == '\n' {
        push_char(out, '\\');
        push_char(out, 'n');
    } else if c == '\r' {
        push_char(out, '\\');
        push_char(out, 'r');
    } else if c == '\t' {
        push_char(out, '\\');
        push_char(out, 't');
    } else if c == '\u{8}' {
        push_char(out, '\\');
        push_char(out, 'b');
    } else if c == '\u{c}' {
        push_char(out, '\\');
        push_char(out, 'f');
    } else if v < 32 {
        push_char(out, '\\');
        push_char(out, 'u');
        push_char(out, '0');
        push_char(out, '0');
        push_char(out, hex_char(v / 16));
        push_char(out, hex_char(v % 16));
    } else {
        push_char(out, c);
    }
    assert(final(out)@ =~= old(out)@ + json_escape_char(c));
}

/// The compact JSON text of a value (how it is shown in messages).
pub fn json_text_of(value: &ExpressionValue) -> (r: String)
    ensures
        r@ == json_text(*value),
{
    match value {
        ExpressionValue::Null => {
            let r = owned("null");
            proof {
                reveal_strlit("null");
            }
            assert(r@ =~= seq!['n', 'u', 'l', 'l']);
            r
        },
        ExpressionValue::Bool(b) => if *b {
            let r = owned("true");
            proof {
                reveal_strlit("true");
            }
            assert(r@ =~= seq!['t', 'r', 'u', 'e']);
            r
        } else {
            let r = owned("false");
            proof {
                reveal_strlit("false");
            }
            assert(r@ =~= seq!['f', 'a', 'l', 's', 'e']);
            r
        },
        ExpressionValue::Number(n) => i64_to_decimal(*n),
        ExpressionValue::Text(t) => {
            let mut out = String::new();
            push_char(&mut out, '"');
            let n = t.as_str().unicode_len();
            let mut i: usize = 0;
            while i < n
                invariant
                    n == t@.len(),
                    0 <= i <= n,
                    out@ == seq!['"'] + json_escape(t@.subrange(0, i as int)),
                decreases n - i,
            {
                let c = t.as_str().get_char(i);
                assert(t@.subrange(0, i + 1).drop_last() =~= t@.subrange(0, i as int));
                push_json_escaped(&mut out, c);
                assert(out@ =~= seq!['"'] + json_escape(t@.subrange(0, i + 1)));
                i = i + 1;
            }
            assert(t@.subrange(0, n as int) =~= t@);
            push_char(&mut out, '"');
            out
        },
        ExpressionValue::Structured(t) => t.clone(),
    }
}

/// The message for a skip-expression switch of element `activity` whose
/// value `value` is not a boolean.
pub open spec fn enabled_type_message(activity: Option<Seq<char>>, value: ExpressionValue) -> Seq<char> {
    "Skip expression variable for activity '"@ + (match activity {
        Some(a) => a,
        None => "<unknown>"@,
    }) + "' does not resolve to a boolean: "@ + json_text(value)
}

fn enabled_type_error(activity_id: Option<&str>, value: &ExpressionValue) -> (r: FlowableError)
    ensures
        r is ExecutionError,
        r->ExecutionError_0@ == enabled_type_message(opt_str_view(activity_id), *value),
{
    let id: &str = match activity_id {
        Some(a) => a,
        None => "<unknown>",
    };
    let mut m = cat3("Skip expression variable for activity '", id, "' does not resolve to a boolean: ");
    let shown = json_text_of(value);
    m.append(shown.as_str());
    FlowableError::ExecutionError(m)
}

/// The view of an optional string slice.
pub open spec fn opt_str_view(o: Option<&str>) -> Option<Seq<char>> {
    match o {
        Some(s) => Some(s@),
        None => None,
    }
}

/// Reads the two skip-expression switches (the values of the
/// `_ACTIVITI_SKIP_EXPRESSION_ENABLED` and `_FLOWABLE_SKIP_EXPRESSION_ENABLED`
/// variables, when set).
pub fn is_skip_expression_enabled(
    activity_id: Option<&str>,
    activiti_enabled: Option<&ExpressionValue>,
    flowable_enabled: Option<&ExpressionValue>,
) -> (r: Result<bool, FlowableError>)
    ensures
        match r {
            Ok(b) => skip_enabled_spec(opt_value(activiti_enabled), opt_value(flowable_enabled)) == Some(b),
            Err(e) => skip_enabled_spec(opt_value(activiti_enabled), opt_value(flowable_enabled)) is None
                && e is ExecutionError,
        },
{
    match activiti_enabled {
        Some(ExpressionValue::Bool(b)) => return Ok(*b),
        Some(v) => return Err(enabled_type_error(activity_id, v)),
        None => {},
    }
    match flowable_enabled {
        Some(ExpressionValue::Bool(b)) => Ok(*b),
        Some(v) => Err(enabled_type_error(activity_id, v)),
        None => Ok(false),
    }
}

/// Whether an element with a skip expression is skipped: only when skipping
/// is enabled and the expression evaluates to `true` (`value`); a value
/// that is not a boolean, or none, is an error.
pub open spec fn skip_element_spec(has_expression: bool, enabled: Option<bool>, value: Option<ExpressionValue>) -> Option<bool> {
    if !has_expression {
        Some(false)
    } else {
        match enabled {
            None => None,
            Some(false) => Some(false),
            Some(true) => match value {
                Some(ExpressionValue::Bool(b)) => Some(b),
                _ => None,
            },
        }
    }
}

pub open spec fn result_bool(r: Result<bool, FlowableError>) -> Option<bool> {
    match r {
        Ok(b) => Some(b),
        Err(_) => None,
    }
}

pub fn should_skip_flow_element(
    skip_expression: Option<&str>,
    element_type: &str,
    activity_id: Option<&str>,
    enabled: Result<bool, FlowableError>,
    value: Option<&ExpressionValue>,
) -> (r: Result<bool, FlowableError>)
    ensures
        result_bool(r) == skip_element_spec(skip_expression is Some, result_bool(enabled), opt_value(value)),
        r matches Err(e) ==> (enabled is Err || e is ExecutionError),
{
    let expression = match skip_expression {
        Some(e) => e,
        None => return Ok(false),
    };
    match enabled {
        Err(e) => return Err(e),
        Ok(false) => return Ok(false),
        Ok(true) => {},
    }
    let id: &str = match activity_id {
        Some(a) => a,
        None => "<unknown>",
    };
    match value {
        Some(ExpressionValue::Bool(b)) => Ok(*b),
        Some(_) => {
            let mut m = cat3(element_type, " '", id);
            m.append("' skipExpression must evaluate to a boolean");
            Err(FlowableError::ExecutionError(m))
        },
        None => {
            let mut m = cat3(element_type, " '", id);
            m.append("' skipExpression did not resolve to a boolean: ");
            m.append(expression);
            Err(FlowableError::ExecutionError(m))
        },
    }
}

/// Whether a sequence flow is taken by its skip expression: never without
/// one or with skipping disabled; always when it is the only outgoing flow;
/// else when the expression evaluates to `true`.
pub open spec fn skip_flow_spec(count: int, has_expression: bool, enabled: Option<bool>, value: Option<ExpressionValue>) -> Option<bool> {
    if !has_expression {
        Some(false)
    } else {
        match enabled {
            None => None,
            Some(false) => Some(false),
            Some(true) => if count == 1 {
                Some(true)
            } else {
                skip_element_spec(true, Some(true), value)
            },
        }
    }
}

pub fn should_skip_sequence_flow(
    outgoing_flow_count: usize,
    skip_expression: Option<&str>,
    flow_id: Option<&str>,
    enabled: Result<bool, FlowableError>,
    value: Option<&ExpressionValue>,
) -> (r: Result<bool, FlowableError>)
    ensures
        result_bool(r) == skip_flow_spec(outgoing_flow_count as int, skip_expression is Some, result_bool(enabled),
            opt_value(value)),
{
    if skip_expression.is_none() {
        return Ok(false);
    }
    match enabled {
        Err(e) => return Err(e),
        Ok(false) => return Ok(false),
        Ok(true) => {},
    }
    if outgoing_flow_count == 1 {
        return Ok(true);
    }
    should_skip_flow_element(skip_expression, "SequenceFlow", flow_id, Ok(true), value)
}

} // verus!
