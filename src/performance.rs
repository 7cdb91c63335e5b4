//! Performance triage scores derived from complexity metrics.
use crate::complexity_analyzer::FunctionComplexity;
use crate::text::{join_strings, join_with, views};
use vstd::prelude::*;
use vstd::string::StringExecFns;

verus! {

/// The weighted sum of the factors that bear on run time.
pub open spec fn impact_sum(f: FunctionComplexity) -> nat {
    (f.cyclomatic_complexity * 5 + f.cognitive_complexity * 3 + f.details.loops * 15
        + f.details.max_nesting_depth * 8 + f.details.function_calls * 2 + f.details.unsafe_blocks
        * 10 + f.parameter_count * 3) as nat
}

/// `x * k`, or `usize::MAX` where that does not fit.
fn times(x: usize, k: usize) -> (r: usize)
    requires
        k <= 15,
    ensures
        r == if x * k <= usize::MAX {
            x * k
        } else {
            usize::MAX as int
        },
{
    match x.checked_mul(k) {
        Some(v) => v,
        None => usize::MAX,
    }
}

/// The performance impact score, out of 100: five points per cyclomatic
/// unit, three per cognitive unit, fifteen per loop, eight per nesting level,
/// two per call, ten per unsafe block and three per parameter, capped at 100.
pub fn calculate_performance_impact(func: &FunctionComplexity) -> (r: u32)
    ensures
        r == if impact_sum(*func) < 100 {
            impact_sum(*func)
        } else {
            100
        },
{
    let d = &func.details;
    let mut score: usize = 0;
    score = score.saturating_add(times(func.cyclomatic_complexity, 5));
    score = score.saturating_add(times(func.cognitive_complexity, 3));
    score = score.saturating_add(times(d.loops, 15));
    score = score.saturating_add(times(d.max_nesting_depth, 8));
    score = score.saturating_add(times(d.function_calls, 2));
    score = score.saturating_add(times(d.unsafe_blocks, 10));
    score = score.saturating_add(times(func.parameter_count, 3));
    if score < 100 {
        score as u32
    } else {
        100
    }
}

/// The areas a profiler should look at first, in a fixed order.
pub open spec fn focus_areas(f: FunctionComplexity) -> Seq<Seq<char>> {
    let a = if f.details.loops > 0 {
        seq!["Loop optimization"@]
    } else {
        Seq::empty()
    };
    let b = if f.details.function_calls > 10 {
        seq!["Call overhead"@]
    } else {
        Seq::empty()
    };
    let c = if f.details.unsafe_blocks > 0 {
        seq!["Memory access patterns"@]
    } else {
        Seq::empty()
    };
    let d = if f.details.max_nesting_depth > 4 {
        seq!["Branch prediction"@]
    } else {
        Seq::empty()
    };
    a + b + c + d
}

/// The profiling focus of a function: its focus areas joined with `, `, or
/// a general note where there are none.
pub fn get_profiling_focus(func: &FunctionComplexity) -> (r: String)
    ensures
        r@ == if focus_areas(*func).len() == 0 {
            "General performance profiling"@
        } else {
            join_with(focus_areas(*func), ", "@)
        },
{
    let mut focus: Vec<String> = Vec::new();
    let ghost f = *func;
    if func.details.loops > 0 {
        focus.push(String::from_str("Loop optimization"));
    }
    assert(views(focus@) =~= if f.details.loops > 0 {
        seq!["Loop optimization"@]
    } else {
        Seq::empty()
    });
    let ghost s1 = views(focus@);
    if func.details.function_calls > 10 {
        focus.push(String::from_str("Call overhead"));
    }
    assert(views(focus@) =~= s1 + if f.details.function_calls > 10 {
        seq!["Call overhead"@]
    } else {
        Seq::empty()
    });
    let ghost s2 = views(focus@);
    if func.details.unsafe_blocks > 0 {
        focus.push(String::from_str("Memory access patterns"));
    }
    assert(views(focus@) =~= s2 + if f.details.unsafe_blocks > 0 {
        seq!["Memory access patterns"@]
    } else {
        Seq::empty()
    });
    let ghost s3 = views(focus@);
    if func.details.max_nesting_depth > 4 {
        focus.push(String::from_str("Branch prediction"));
    }
    assert(views(focus@) =~= s3 + if f.details.max_nesting_depth > 4 {
        seq!["Branch prediction"@]
    } else {
        Seq::empty()
    });
    assert(views(focus@) =~= focus_areas(f));
    if focus.len() == 0 {
        String::from_str("General performance profiling")
    } else {
        join_strings(&focus, ", ")
    }
}

} // verus!
