//! Timer definitions: evaluating their fields, choosing their business
//! calendar, and reading the iteration bound of a repeating cycle.
use vstd::prelude::*;
use crate::command::{contains_string, contains_view, CommandContext};
use crate::error::FlowableError;
use crate::text::{cat, cat3, trim, trim_str, owned};

verus! {

/// Timer fields ready to be stored on a job or subscription.
#[derive(Debug)]
pub struct ResolvedTimerSchedule {
    pub time_date: Option<String>,
    pub time_duration: Option<String>,
    pub time_cycle: Option<String>,
    pub end_date: Option<String>,
    pub due_time: Option<i64>,
    /// The calendar name exactly as modelled (literal or expression).
    pub calendar_name: Option<String>,
}

/// Retries for a new timer job: the configured number, never negative.
pub fn default_timer_retries(ctx: &CommandContext) -> (r: Option<i32>)
    ensures
        r == Some(if ctx.config.number_of_retries < 0 { 0 } else { ctx.config.number_of_retries }),
{
    if ctx.config.number_of_retries < 0 {
        Some(0)
    } else {
        Some(ctx.config.number_of_retries)
    }
}

/// Which modelled field describes the due date.
#[derive(Debug, PartialEq, Eq)]
pub enum TimerFieldKind {
    Date,
    Cycle,
    Duration,
}

impl TimerFieldKind {
    /// The built-in calendar for the kind: `dueDate`, `cycle` or `duration`.
    pub fn default_calendar_name(&self) -> (r: &'static str)
        ensures
            r@ == (match self {
                TimerFieldKind::Date => "dueDate"@,
                TimerFieldKind::Cycle => "cycle"@,
                TimerFieldKind::Duration => "duration"@,
            }),
    {
        match self {
            TimerFieldKind::Date => "dueDate",
            TimerFieldKind::Cycle => "cycle",
            TimerFieldKind::Duration => "duration",
        }
    }
}

/// Whether `c` is an ASCII decimal digit.
pub open spec fn is_digit(c: char) -> bool {
    '0' <= c && c <= '9'
}

/// The value of a string of decimal digits.
pub open spec fn digits_value(s: Seq<char>) -> nat
    decreases s.len(),
{
    if s.len() == 0 {
        0
    } else {
        digits_value(s.drop_last()) * 10 + ((s.last() as int) - 48) as nat
    }
}

/// Whether every character of `d` is a decimal digit.
pub open spec fn all_digits(d: Seq<char>) -> bool {
    forall|i: int| 0 <= i < d.len() ==> is_digit(#[trigger] d[i])
}

/// `s` without one leading `+`.
pub open spec fn unsigned_part(s: Seq<char>) -> Seq<char> {
    if s.len() > 0 && s[0] == '+' { s.drop_first() } else { s }
}

/// `u32::from_str`: an optional `+` then one or more digits, within range.
pub open spec fn parse_u32_spec(s: Seq<char>) -> Option<u32> {
    let d = unsigned_part(s);
    if d.len() > 0 && all_digits(d) && digits_value(d) <= u32::MAX {
        Some(digits_value(d) as u32)
    } else {
        None
    }
}

/// The characters of `s` before its first `/` (all of `s` without one).
pub open spec fn before_slash(s: Seq<char>) -> Seq<char>
    decreases s.len(),
{
    if s.len() == 0 {
        s
    } else if s[0] == '/' {
        Seq::empty()
    } else {
        seq![s[0]] + before_slash(s.drop_first())
    }
}

/// The iteration bound of a cycle: `R<n>/...` is bounded by `n`; `R/...`,
/// cron expressions and anything else are unbounded.
pub open spec fn max_iterations_spec(cycle: Seq<char>) -> Option<u32> {
    let t = trim(cycle);
    if t.len() > 0 && t[0] == 'R' {
        let count = before_slash(t.drop_first());
        if count.len() == 0 {
            None
        } else {
            parse_u32_spec(count)
        }
    } else {
        None
    }
}

proof fn lemma_before_slash(s: Seq<char>, i: int)
    requires
        0 <= i <= s.len(),
        forall|j: int| 0 <= j < i ==> s[j] != '/',
        i == s.len() || s[i] == '/',
    ensures
        before_slash(s) == s.subrange(0, i),
    decreases s.len(),
{
    if s.len() > 0 {
        if s[0] == '/' {
            assert(s.subrange(0, 0) =~= Seq::<char>::empty());
        } else {
            lemma_before_slash(s.drop_first(), i - 1);
            assert(seq![s[0]] + s.drop_first().subrange(0, i - 1) =~= s.subrange(0, i));
        }
    } else {
        assert(s.subrange(0, 0) =~= s);
    }
}

/// `u32::from_str`.
pub fn parse_u32(s: &str) -> (r: Option<u32>)
    ensures
        r == parse_u32_spec(s@),
{
    let n = s.unicode_len();
    let mut start: usize = 0;
    if n > 0 && s.get_char(0) == '+' {
        start = 1;
    }
    let ghost d = unsigned_part(s@);
    assert(d =~= s@.subrange(start as int, n as int));
    if start == n {
        return None;
    }
    let mut value: u64 = 0;
    let mut i: usize = start;
    while i < n
        invariant
            n == s@.len(),
            start <= i <= n,
            d == s@.subrange(start as int, n as int),
            d == unsigned_part(s@),
            forall|j: int| start <= j < i ==> is_digit(#[trigger] s@[j]),
            value == digits_value(s@.subrange(start as int, i as int)),
            value <= u32::MAX,
        decreases n - i,
    {
        let c = s.get_char(i);
        let ghost pre = s@.subrange(start as int, i as int);
        assert(s@.subrange(start as int, i + 1).drop_last() =~= pre);
        if !('0' <= c && c <= '9') {
            proof {
                assert(d[i - start] == c);
                assert(!is_digit(d[i - start]));
            }
            return None;
        }
        let digit = (c as u32 - 48) as u64;
        let next = value * 10 + digit;
        if next > 4294967295u64 {
            proof {
                if all_digits(d) {
                    lemma_digits_monotone(d, i + 1 - start);
                    assert(d.subrange(0, i + 1 - start) =~= s@.subrange(start as int, i + 1));
                    let a = s@.subrange(start as int, i + 1);
                    assert(a.last() == c);
                }
            }
            return None;
        }
        value = next;
        i = i + 1;
    }
    proof {
        assert forall|j: int| 0 <= j < d.len() implies is_digit(#[trigger] d[j]) by {
            assert(d[j] == s@[j + start]);
        }
    }
    Some(value as u32)
}

proof fn lemma_digits_monotone(d: Seq<char>, k: int)
    requires
        0 <= k <= d.len(),
        forall|j: int| 0 <= j < d.len() ==> is_digit(#[trigger] d[j]),
    ensures
        digits_value(d) >= digits_value(d.subrange(0, k)),
    decreases d.len() - k,
{
    if k < d.len() {
        lemma_digits_monotone(d, k + 1);
        let a = d.subrange(0, k + 1);
        assert(a.drop_last() =~= d.subrange(0, k));
        assert(is_digit(a.last()));
    } else {
        assert(d.subrange(0, k) =~= d);
    }
}

/// The iteration bound of a timer cycle (`R5/PT1H` is bounded by 5; `R/PT1H`
/// and cron expressions are unbounded).
pub fn max_iterations_from_cycle(cycle: &str) -> (r: Option<u32>)
    ensures
        r == max_iterations_spec(cycle@),
{
    let t = trim_str(cycle);
    let n = t.unicode_len();
    if n == 0 || t.get_char(0) != 'R' {
        return None;
    }
    let mut i: usize = 1;
    while i < n && t.get_char(i) != '/'
        invariant
            n == t@.len(),
            1 <= i <= n,
            forall|j: int| 1 <= j < i ==> t@[j] != '/',
        decreases n - i,
    {
        i = i + 1;
    }
    proof {
        let rest = t@.drop_first();
        assert forall|j: int| 0 <= j < i - 1 implies rest[j] != '/' by {
            assert(rest[j] == t@[j + 1]);
        }
        if i < n {
            assert(rest[i - 1] == t@[i as int]);
        }
        lemma_before_slash(rest, i - 1);
        assert(rest.subrange(0, i - 1) =~= t@.subrange(1, i as int));
    }
    if i == 1 {
        return None;
    }
    let count = t.substring_char(1, i);
    parse_u32(count)
}

/// A value an expression evaluated to.
#[derive(Debug)]
pub enum TimerFieldValue {
    Null,
    Bool(bool),
    Number(i64),
    Text(String),
    /// A list or an object.
    Structured,
}

/// An evaluated timer field, with the instant when the value already was one.
#[derive(Debug)]
pub struct EvaluatedTimerField {
    pub text: String,
    pub instant: Option<i64>,
}

/// The name for `chrono::DateTime::<Utc>::from_timestamp_millis(ms)` rendered by
/// `to_rfc3339`: `None` when the milliseconds are out of chrono's range.
pub uninterp spec fn rfc3339_of_millis(ms: i64) -> Option<Seq<char>>;

/// `DateTime::<Utc>::from_timestamp_millis(ms).map(|d| d.to_rfc3339())`.
#[verifier::external_body]
fn millis_to_rfc3339(ms: i64) -> (r: Option<String>)
    ensures
        match r {
            Some(s) => rfc3339_of_millis(ms) == Some(s@),
            None => rfc3339_of_millis(ms) is None,
        },
{
    chrono::DateTime::<chrono::Utc>::from_timestamp_millis(ms).map(|d| d.to_rfc3339())
}

/// Whether `raw` (already trimmed) is an expression `${...}`.
pub open spec fn is_expression(t: Seq<char>) -> bool {
    t.len() >= 2 && t[0] == '$' && t[1] == '{' && t.last() == '}'
}

/// The text of an evaluated field, or `None` when the field is refused.
pub open spec fn value_field_text(value: TimerFieldValue) -> Option<Seq<char>> {
    match value {
        TimerFieldValue::Null => None,
        TimerFieldValue::Text(s) => if trim(s@).len() == 0 { None } else { Some(trim(s@)) },
        TimerFieldValue::Number(i) => if i >= 1_000_000_000_000 || i <= -1_000_000_000_000 {
            rfc3339_of_millis(i)
        } else {
            Some(crate::text::decimal_i64(i as int))
        },
        TimerFieldValue::Bool(b) => Some(if b { "true"@ } else { "false"@ }),
        TimerFieldValue::Structured => None,
    }
}

/// The message refusing a field's expression value (when it is refused).
pub open spec fn value_field_error(value: TimerFieldValue, field: Seq<char>) -> Seq<char> {
    match value {
        TimerFieldValue::Null => "Timer "@ + field + " expression resolved to null"@,
        TimerFieldValue::Text(_) => "Timer "@ + field + " expression resolved to an empty string"@,
        TimerFieldValue::Number(_) => "Timer "@ + field + " expression resolved to an invalid epoch millis"@,
        _ => "Timer "@ + field
            + " was not configured with a valid duration/time (expected String, Date/Instant, or Number)"@,
    }
}

/// The message refusing a timer field (when it is refused): blank, an
/// expression that could not be evaluated, or a refused value.
pub open spec fn field_error(raw: Seq<char>, field: Seq<char>, expression_value: Option<TimerFieldValue>) -> Seq<char> {
    let t = trim(raw);
    if t.len() == 0 {
        "Timer "@ + field + " was empty"@
    } else {
        match expression_value {
            Some(v) => value_field_error(v, field),
            None => "Timer "@ + field + " expression '"@ + t + "' could not be evaluated"@,
        }
    }
}

/// A timer field from an expression's value: null, blank text and lists or
/// objects are refused; text is trimmed; a number of at least 10^12 in
/// magnitude is an instant in epoch milliseconds, other numbers and booleans
/// become their text.
pub fn timer_value_to_field(value: &TimerFieldValue, field_name: &str) -> (r: Result<
    EvaluatedTimerField,
    FlowableError,
>)
    ensures
        r is Ok <==> value_field_text(*value) is Some,
        r matches Ok(f) ==> Some(f.text@) == value_field_text(*value) && f.instant == (match *value {
            TimerFieldValue::Number(i) => if i >= 1_000_000_000_000 || i <= -1_000_000_000_000 { Some(i) } else { None },
            _ => None,
        }),
        r matches Err(e) ==> e is ExecutionError && e->ExecutionError_0@ == value_field_error(*value, field_name@),
{
    match value {
        TimerFieldValue::Null => Err(FlowableError::ExecutionError(cat3("Timer ", field_name, " expression resolved to null"))),
        TimerFieldValue::Text(s) => {
            let t = trim_str(s.as_str());
            if t.unicode_len() == 0 {
                Err(FlowableError::ExecutionError(cat3("Timer ", field_name, " expression resolved to an empty string")))
            } else {
                Ok(EvaluatedTimerField { text: owned(t), instant: None })
            }
        },
        TimerFieldValue::Number(i) => {
            let i = *i;
            if i >= 1_000_000_000_000 || i <= -1_000_000_000_000 {
                match millis_to_rfc3339(i) {
                    Some(text) => Ok(EvaluatedTimerField { text, instant: Some(i) }),
                    None => Err(FlowableError::ExecutionError(cat3("Timer ", field_name, " expression resolved to an invalid epoch millis"))),
                }
            } else {
                Ok(EvaluatedTimerField { text: crate::text::i64_to_decimal(i), instant: None })
            }
        },
        TimerFieldValue::Bool(b) => {
            proof {
                reveal_strlit("true");
                reveal_strlit("false");
            }
            Ok(EvaluatedTimerField { text: owned(if *b { "true" } else { "false" }), instant: None })
        },
        TimerFieldValue::Structured => Err(FlowableError::ExecutionError(cat3("Timer ", field_name, " was not configured with a valid duration/time (expected String, Date/Instant, or Number)"))),
    }
}

/// The text a timer field evaluates to (`expression_value` is what the
/// field's expression evaluated to, when it is one; `None` when it could not
/// be evaluated), or `None` when the field is refused.
pub open spec fn field_text(raw: Seq<char>, expression_value: Option<TimerFieldValue>) -> Option<Seq<char>> {
    let t = trim(raw);
    if t.len() == 0 {
        None
    } else if is_expression(t) {
        match expression_value {
            Some(v) => value_field_text(v),
            None => None,
        }
    } else {
        Some(t)
    }
}

/// Evaluates a timer field: blank is refused; a literal passes through
/// trimmed; an expression `${...}` takes the value it evaluated to.
pub fn evaluate_timer_field_value(
    raw: &str,
    field_name: &str,
    expression_value: Option<&TimerFieldValue>,
) -> (r: Result<EvaluatedTimerField, FlowableError>)
    ensures
        r is Ok <==> field_text(raw@, opt_ref(expression_value)) is Some,
        r matches Ok(f) ==> Some(f.text@) == field_text(raw@, opt_ref(expression_value)),
        !is_expression(trim(raw@)) ==> (r matches Ok(f) ==> f.instant is None),
        r matches Err(e) ==> e is ExecutionError && e->ExecutionError_0@ == field_error(raw@, field_name@, opt_ref(expression_value)),
{
    let t = trim_str(raw);
    let n = t.unicode_len();
    if n == 0 {
        return Err(FlowableError::ExecutionError(cat3("Timer ", field_name, " was empty")));
    }
    if n >= 2 && t.get_char(0) == '$' && t.get_char(1) == '{' && t.get_char(n - 1) == '}' {
        match expression_value {
            Some(v) => timer_value_to_field(v, field_name),
            None => {
                let mut m = cat3("Timer ", field_name, " expression '");
                m.append(t);
                m.append("' could not be evaluated");
                Err(FlowableError::ExecutionError(m))
            },
        }
    } else {
        Ok(EvaluatedTimerField { text: owned(t), instant: None })
    }
}

pub open spec fn opt_ref(o: Option<&TimerFieldValue>) -> Option<TimerFieldValue> {
    match o {
        Some(v) => Some(*v),
        None => None,
    }
}

/// The text of an evaluated timer field.
pub fn evaluate_timer_field(raw: &str, field_name: &str, expression_value: Option<&TimerFieldValue>) -> (r: Result<String, FlowableError>)
    ensures
        r is Ok <==> field_text(raw@, opt_ref(expression_value)) is Some,
        r matches Ok(t) ==> Some(t@) == field_text(raw@, opt_ref(expression_value)),
        r matches Err(e) ==> e is ExecutionError && e->ExecutionError_0@ == field_error(raw@, field_name@, opt_ref(expression_value)),
{
    match evaluate_timer_field_value(raw, field_name, expression_value) {
        Ok(f) => Ok(f.text),
        Err(e) => Err(e),
    }
}

/// The calendar a timer uses: the modelled name when not blank (evaluated
/// like any timer field), else the kind's built-in one.
pub open spec fn calendar_name_spec(
    kind_default: Seq<char>,
    raw: Option<String>,
    expression_value: Option<TimerFieldValue>,
) -> Option<Seq<char>> {
    match raw {
        Some(r) => if trim(r@).len() > 0 {
            field_text(r@, expression_value)
        } else {
            Some(kind_default)
        },
        None => Some(kind_default),
    }
}

/// Chooses the timer's business calendar and checks that it is registered;
/// an unknown name is an error, never replaced by the built-in one.
pub fn resolve_business_calendar(
    kind_default_name: &str,
    raw_calendar_name: Option<&String>,
    expression_value: Option<&TimerFieldValue>,
    registered_calendars: &Vec<String>,
) -> (r: Result<String, FlowableError>)
    ensures
        r matches Ok(name) ==> Some(name@) == calendar_name_spec(kind_default_name@, opt_string(raw_calendar_name), opt_ref(expression_value))
            && contains_view(registered_calendars@, name@),
        r is Ok <==> (calendar_name_spec(kind_default_name@, opt_string(raw_calendar_name), opt_ref(expression_value)) matches Some(name)
            && contains_view(registered_calendars@, name)),
{
    let name = match raw_calendar_name {
        Some(raw) => {
            if trim_str(raw.as_str()).unicode_len() > 0 {
                evaluate_timer_field(raw.as_str(), "calendarName", expression_value)?
            } else {
                owned(kind_default_name)
            }
        },
        None => owned(kind_default_name),
    };
    if !contains_string(registered_calendars, &name) {
        let mut m = cat3("Business calendar '", name.as_str(), "' is not registered; registered calendars: ");
        let mut i: usize = 0;
        while i < registered_calendars.len()
            invariant
                0 <= i <= registered_calendars.len(),
            decreases registered_calendars.len() - i,
        {
            if i > 0 {
                m.append(", ");
            }
            m.append(registered_calendars[i].as_str());
            i = i + 1;
        }
        return Err(FlowableError::ExecutionError(m));
    }
    Ok(name)
}

pub open spec fn opt_string(o: Option<&String>) -> Option<String> {
    match o {
        Some(s) => Some(*s),
        None => None,
    }
}

} // verus!
