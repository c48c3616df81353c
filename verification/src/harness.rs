//! The witness-replay side of the workload: the fixed witness checks, how
//! the outcomes of several properties combine, and the JSON report line.

use vstd::prelude::*;
use crate::etna::{
    fuzzed_mul_1_inputs, property_is_multiple_of_zero, property_mul_does_not_panic,
    property_mul_square_all_ones, property_neg_isize_addassign, PropertyResult,
};
use crate::natural::digits_value;
use crate::text::{
    all_decimal_digits, decimal, json_escape, json_plain, json_quoted, json_str, law_decimal_reads_back,
    lemma_json_escape_plain, push_char, push_decimal, str_eq,
};

verus! {

/// A property of the workload.
#[derive(Clone, Copy, Debug, PartialEq, Eq, Structural)]
pub enum Property {
    IsMultipleOfZero,
    ScalarDivByZeroPanics,
    NegIsizeAddAssign,
    MulSquareAllOnes,
    MulDoesNotPanic,
}

/// What a property name asks a run for: every property, or one.
#[derive(Clone, Copy, Debug, PartialEq, Eq, Structural)]
pub enum Selection {
    All,
    One(Property),
}

/// The selection a property name stands for; the `isize` add-assign
/// property answers to both `NegIsizeAddAssign` and `NegIsizeAddassign`.
pub open spec fn selection_of(name: Seq<char>) -> Option<Selection> {
    if name == "All"@ {
        Some(Selection::All)
    } else if name == "IsMultipleOfZero"@ {
        Some(Selection::One(Property::IsMultipleOfZero))
    } else if name == "ScalarDivByZeroPanics"@ {
        Some(Selection::One(Property::ScalarDivByZeroPanics))
    } else if name == "NegIsizeAddAssign"@ || name == "NegIsizeAddassign"@ {
        Some(Selection::One(Property::NegIsizeAddAssign))
    } else if name == "MulSquareAllOnes"@ {
        Some(Selection::One(Property::MulSquareAllOnes))
    } else if name == "MulDoesNotPanic"@ {
        Some(Selection::One(Property::MulDoesNotPanic))
    } else {
        None
    }
}

/// Reads a property name: `None` for a name of no property.
pub fn select_property(name: &str) -> (r: Option<Selection>)
    ensures
        r == selection_of(name@),
{
    if str_eq(name, "All") {
        Some(Selection::All)
    } else if str_eq(name, "IsMultipleOfZero") {
        Some(Selection::One(Property::IsMultipleOfZero))
    } else if str_eq(name, "ScalarDivByZeroPanics") {
        Some(Selection::One(Property::ScalarDivByZeroPanics))
    } else if str_eq(name, "NegIsizeAddAssign") || str_eq(name, "NegIsizeAddassign") {
        Some(Selection::One(Property::NegIsizeAddAssign))
    } else if str_eq(name, "MulSquareAllOnes") {
        Some(Selection::One(Property::MulSquareAllOnes))
    } else if str_eq(name, "MulDoesNotPanic") {
        Some(Selection::One(Property::MulDoesNotPanic))
    } else {
        None
    }
}

/// How many inputs a run tried and how long it took.
#[derive(Clone, Copy, Debug)]
pub struct Metrics {
    pub inputs: u64,
    pub elapsed_us: u128,
}

impl Default for Metrics {
    fn default() -> (r: Metrics)
        ensures
            r.inputs == 0,
            r.elapsed_us == 0,
    {
        Metrics { inputs: 0, elapsed_us: 0 }
    }
}

/// The status of a run (`Err` with a counterexample or a reason) and its
/// metrics.
pub type Outcome = (Result<(), String>, Metrics);

/// Reads a property verdict as a run status: a pass or a discarded input
/// is fine, a failure carries its message.
pub fn pr_into_result(p: PropertyResult) -> (r: Result<(), String>)
    ensures
        match p {
            PropertyResult::Pass => r is Ok,
            PropertyResult::Discard => r is Ok,
            PropertyResult::Fail(m) => r == Err::<(), String>(m),
        },
{
    match p {
        PropertyResult::Pass => Ok(()),
        PropertyResult::Discard => Ok(()),
        PropertyResult::Fail(m) => Err(m),
    }
}

/// The inputs tried over all outcomes.
pub open spec fn total_inputs(s: Seq<Outcome>) -> nat
    decreases s.len(),
{
    if s.len() == 0 {
        0
    } else {
        total_inputs(s.drop_last()) + s.last().1.inputs as nat
    }
}

/// The time taken over all outcomes.
pub open spec fn total_elapsed(s: Seq<Outcome>) -> nat
    decreases s.len(),
{
    if s.len() == 0 {
        0
    } else {
        total_elapsed(s.drop_last()) + s.last().1.elapsed_us as nat
    }
}

/// The message of a failed status, `None` for a success.
pub open spec fn failure_message(status: Result<(), String>) -> Option<String> {
    match status {
        Ok(_) => None,
        Err(m) => Some(m),
    }
}

/// The message of the first failed outcome, `None` when none failed.
pub open spec fn first_failure(s: Seq<Outcome>) -> Option<String>
    decreases s.len(),
{
    if s.len() == 0 {
        None
    } else if s[0].0 is Err {
        failure_message(s[0].0)
    } else {
        first_failure(s.drop_first())
    }
}

proof fn lemma_first_failure_extend(s: Seq<Outcome>, o: Outcome)
    ensures
        first_failure(s.push(o)) == (if first_failure(s) is Some {
            first_failure(s)
        } else {
            failure_message(o.0)
        }),
    decreases s.len(),
{
    if s.len() > 0 {
        assert(s.push(o).drop_first() =~= s.drop_first().push(o));
        assert(s.push(o)[0] == s[0]);
        lemma_first_failure_extend(s.drop_first(), o);
    } else {
        assert(s.push(o).drop_first() =~= Seq::<Outcome>::empty());
        assert(s.push(o)[0] == o);
        assert(first_failure(Seq::<Outcome>::empty()) is None);
    }
}

/// The combined test count adds up: none for no runs, and each further
/// run adds its own count.
pub proof fn law_total_inputs_additive(s: Seq<Outcome>, o: Outcome)
    ensures
        total_inputs(Seq::<Outcome>::empty()) == 0,
        total_inputs(s.push(o)) == total_inputs(s) + o.1.inputs,
{
    assert(s.push(o).drop_last() =~= s);
}

/// The combined time adds up: none for no runs, and each further run adds
/// its own time.
pub proof fn law_total_elapsed_additive(s: Seq<Outcome>, o: Outcome)
    ensures
        total_elapsed(Seq::<Outcome>::empty()) == 0,
        total_elapsed(s.push(o)) == total_elapsed(s) + o.1.elapsed_us,
{
    assert(s.push(o).drop_last() =~= s);
}

/// The failure a combination reports is that of the earliest failed run:
/// every run before it passed.
pub proof fn law_first_failure_is_earliest(s: Seq<Outcome>)
    ensures
        first_failure(s) is Some ==> exists|i: int|
            0 <= i < s.len() && (#[trigger] s[i]).0 is Err && failure_message(s[i].0) == first_failure(s)
                && forall|j: int| 0 <= j < i ==> (#[trigger] s[j]).0 is Ok,
    decreases s.len(),
{
    if s.len() > 0 && first_failure(s) is Some {
        if s[0].0 is Err {
            assert(forall|j: int| 0 <= j < 0 ==> (#[trigger] s[j]).0 is Ok);
            assert(s[0].0 is Err && failure_message(s[0].0) == first_failure(s));
        } else {
            let rest = s.drop_first();
            law_first_failure_is_earliest(rest);
            let i = choose|i: int|
                0 <= i < rest.len() && (#[trigger] rest[i]).0 is Err && failure_message(rest[i].0)
                    == first_failure(rest) && forall|j: int| 0 <= j < i ==> (#[trigger] rest[j]).0 is Ok;
            assert(s[i + 1] == rest[i]);
            assert forall|j: int| 0 <= j < i + 1 implies (#[trigger] s[j]).0 is Ok by {
                if j > 0 {
                    assert(s[j] == rest[j - 1]);
                }
            }
        }
    }
}

/// A combination of runs passes exactly when every run in it passed, and
/// when one failed, the failure it reports is one of the runs' failures.
pub proof fn law_combined_passes_iff_all_pass(s: Seq<Outcome>)
    ensures
        first_failure(s) is None <==> (forall|i: int| 0 <= i < s.len() ==> (#[trigger] s[i]).0 is Ok),
        first_failure(s) is Some ==> exists|i: int|
            0 <= i < s.len() && failure_message((#[trigger] s[i]).0) == first_failure(s),
    decreases s.len(),
{
    if s.len() > 0 {
        let rest = s.drop_first();
        law_combined_passes_iff_all_pass(rest);
        assert forall|i: int| 0 < i < s.len() implies s[i] == rest[i - 1] by {}
        if s[0].0 is Ok {
            if first_failure(rest) is Some {
                let j = choose|j: int|
                    0 <= j < rest.len() && failure_message((#[trigger] rest[j]).0) == first_failure(rest);
                assert(s[j + 1] == rest[j]);
            } else {
                assert forall|i: int| 0 <= i < s.len() implies (#[trigger] s[i]).0 is Ok by {
                    if i > 0 {
                        assert(rest[i - 1].0 is Ok);
                    }
                }
            }
        }
    }
}

/// Combines the outcomes of runs over several properties, in order: the
/// metrics add up, and the status is that of the first failure.
pub fn combine_outcomes(outcomes: &Vec<Outcome>) -> (r: Outcome)
    requires
        total_inputs(outcomes@) <= u64::MAX,
        total_elapsed(outcomes@) <= u128::MAX,
    ensures
        failure_message(r.0) == first_failure(outcomes@),
        r.1.inputs == total_inputs(outcomes@),
        r.1.elapsed_us == total_elapsed(outcomes@),
{
    let mut total = Metrics { inputs: 0, elapsed_us: 0 };
    let mut final_status: Result<(), String> = Ok(());
    let mut i: usize = 0;
    while i < outcomes.len()
        invariant
            i <= outcomes.len(),
            total_inputs(outcomes@) <= u64::MAX,
            total_elapsed(outcomes@) <= u128::MAX,
            total.inputs == total_inputs(outcomes@.take(i as int)),
            total.elapsed_us == total_elapsed(outcomes@.take(i as int)),
            failure_message(final_status) == first_failure(outcomes@.take(i as int)),
        decreases outcomes.len() - i,
    {
        let ghost prefix = outcomes@.take(i as int);
        proof {
            assert(outcomes@.take(i + 1) =~= prefix.push(outcomes@[i as int]));
            assert(outcomes@.take(i + 1).drop_last() =~= prefix);
            lemma_first_failure_extend(prefix, outcomes@[i as int]);
            lemma_totals_prefix(outcomes@, i + 1);
        }
        let m = outcomes[i].1;
        total.inputs = total.inputs + m.inputs;
        total.elapsed_us = total.elapsed_us + m.elapsed_us;
        if final_status.is_ok() {
            match &outcomes[i].0 {
                Err(msg) => {
                    final_status = Err(msg.clone());
                },
                Ok(()) => {},
            }
        }
        i = i + 1;
    }
    assert(outcomes@.take(outcomes@.len() as int) =~= outcomes@);
    (final_status, total)
}

/// The totals over a prefix never exceed those over the whole.
proof fn lemma_totals_prefix(s: Seq<Outcome>, k: int)
    requires
        0 <= k <= s.len(),
    ensures
        total_inputs(s.take(k)) <= total_inputs(s),
        total_elapsed(s.take(k)) <= total_elapsed(s),
    decreases s.len() - k,
{
    if k < s.len() {
        lemma_totals_prefix(s, k + 1);
        assert(s.take(k + 1).drop_last() =~= s.take(k));
    } else {
        assert(s.take(k) =~= s);
    }
}

/// The witnesses of the zero-divisor multiple check all pass.
pub fn check_is_multiple_of_zero() -> (r: Result<(), String>)
    ensures
        r is Ok,
{
    pr_into_result(property_is_multiple_of_zero(0))?;
    pr_into_result(property_is_multiple_of_zero(7))?;
    pr_into_result(property_is_multiple_of_zero(u64::MAX))
}

/// The witnesses of the `isize` add-assign check all pass.
pub fn check_neg_isize_addassign() -> (r: Result<(), String>)
    ensures
        r is Ok,
{
    pr_into_result(property_neg_isize_addassign(100, -5))?;
    pr_into_result(property_neg_isize_addassign(0, -1))?;
    pr_into_result(property_neg_isize_addassign(7, 3))
}

/// The witnesses of the all-ones square check all pass.
pub fn check_mul_square_all_ones() -> (r: Result<(), String>)
    ensures
        r is Ok,
{
    pr_into_result(property_mul_square_all_ones(4))?;
    pr_into_result(property_mul_square_all_ones(6))?;
    pr_into_result(property_mul_square_all_ones(7))
}

/// The witnesses of the multiplication check all pass.
pub fn check_mul_does_not_panic() -> (r: Result<(), String>)
    ensures
        r is Ok,
{
    let (a, b) = fuzzed_mul_1_inputs();
    pr_into_result(property_mul_does_not_panic(a.to_bytes_be(), b.to_bytes_be()))?;
    pr_into_result(property_mul_does_not_panic(vec![1u8, 2u8, 3u8], vec![4u8, 5u8, 6u8]))?;
    pr_into_result(property_mul_does_not_panic(Vec::new(), vec![1u8]))
}

/// An optional text as JSON: its string literal, or `null`.
pub open spec fn json_optional(s: Option<Seq<char>>) -> Seq<char> {
    match s {
        Some(t) => json_quoted(t),
        None => seq!['n', 'u', 'l', 'l'],
    }
}

/// The view of an optional string slice.
pub open spec fn optional_view(s: Option<&str>) -> Option<Seq<char>> {
    match s {
        Some(t) => Some(t@),
        None => None,
    }
}

/// The one-line JSON report of a run.
pub open spec fn json_record_text(
    tool: Seq<char>,
    property: Seq<char>,
    status: Seq<char>,
    m: Metrics,
    cex: Option<Seq<char>>,
    err: Option<Seq<char>>,
) -> Seq<char> {
    "{\"status\":"@ + json_quoted(status) + ",\"tests\":"@ + decimal(m.inputs as nat)
        + ",\"discards\":0,\"time\":"@ + json_quoted(decimal(m.elapsed_us as nat) + "us"@)
        + ",\"counterexample\":"@ + json_optional(cex) + ",\"error\":"@ + json_optional(err)
        + ",\"tool\":"@ + json_quoted(tool) + ",\"property\":"@ + json_quoted(property) + "}"@
}

/// Whether `text` stands in `r` at position `k`.
pub open spec fn occurs_at(r: Seq<char>, k: int, text: Seq<char>) -> bool {
    &&& 0 <= k
    &&& k + text.len() <= r.len()
    &&& r.subrange(k, k + text.len()) == text
}

proof fn lemma_occurs_suffix(p: Seq<char>, f: Seq<char>)
    ensures
        occurs_at(p + f, p.len() as int, f),
{
    assert((p + f).subrange(p.len() as int, (p.len() + f.len()) as int) =~= f);
}

proof fn lemma_occurs_grow(x: Seq<char>, k: int, f: Seq<char>, g: Seq<char>)
    requires
        occurs_at(x, k, f),
        k + f.len() == x.len(),
    ensures
        occurs_at(x + g, k, f + g),
{
    assert((x + g).subrange(k, k + (f + g).len()) =~= f + g) by {
        assert forall|i: int| 0 <= i < (f + g).len() implies (x + g).subrange(k, k + (f + g).len())[i]
            == (f + g)[i] by {
            if i < f.len() {
                assert(x.subrange(k, k + f.len())[i] == f[i]);
            }
        }
    }
}

proof fn lemma_occurs_append(x: Seq<char>, k: int, f: Seq<char>, g: Seq<char>)
    requires
        occurs_at(x, k, f),
    ensures
        occurs_at(x + g, k, f),
{
    assert((x + g).subrange(k, k + f.len()) =~= x.subrange(k, k + f.len()));
}

/// The report line shows every field of the run, each from its own
/// argument alone: it opens with the status; the test count and the time
/// are decimal numerals that read back as `m.inputs` and `m.elapsed_us`
/// (the time followed by `us`); the counterexample and the error are each
/// the JSON string literal of their text when there is one and `null` when
/// there is none, whatever the other holds; the tool and the property
/// follow, and the line closes after the property.
pub proof fn law_record_fields(
    tool: Seq<char>,
    property: Seq<char>,
    status: Seq<char>,
    m: Metrics,
    cex: Option<Seq<char>>,
    err: Option<Seq<char>>,
)
    ensures
        ({
            let r = json_record_text(tool, property, status, m, cex, err);
            &&& occurs_at(r, 0, "{\"status\":"@ + json_quoted(status) + ",\"tests\":"@)
            &&& exists|k: int, d: Seq<char>|
                d.len() > 0 && all_decimal_digits(d) && digits_value(d, 10) == m.inputs
                    && #[trigger] occurs_at(r, k, ",\"tests\":"@ + d + ",\"discards\":0,\"time\":"@)
            &&& exists|k: int, d: Seq<char>|
                d.len() > 0 && all_decimal_digits(d) && digits_value(d, 10) == m.elapsed_us
                    && #[trigger] occurs_at(
                    r,
                    k,
                    ",\"discards\":0,\"time\":"@ + "\""@ + d + "us\""@
                        + ",\"counterexample\":"@,
                )
            &&& cex is Some ==> exists|k: int|
                #[trigger] occurs_at(
                    r,
                    k,
                    ",\"counterexample\":"@ + json_quoted(cex->0) + ",\"error\":"@,
                )
            &&& cex is None ==> exists|k: int|
                #[trigger] occurs_at(r, k, ",\"counterexample\":"@ + "null"@ + ",\"error\":"@)
            &&& err is Some ==> exists|k: int|
                #[trigger] occurs_at(r, k, ",\"error\":"@ + json_quoted(err->0) + ",\"tool\":"@)
            &&& err is None ==> exists|k: int|
                #[trigger] occurs_at(r, k, ",\"error\":"@ + "null"@ + ",\"tool\":"@)
            &&& exists|k: int|
                #[trigger] occurs_at(r, k, ",\"tool\":"@ + json_quoted(tool) + ",\"property\":"@)
            &&& exists|k: int|
                #[trigger] occurs_at(r, k, ",\"property\":"@ + json_quoted(property) + "}"@)
                    && k + (",\"property\":"@ + json_quoted(property) + "}"@).len() == r.len()
        }),
{
    let a0 = "{\"status\":"@;
    let qs = json_quoted(status);
    let a1 = ",\"tests\":"@;
    let d1 = decimal(m.inputs as nat);
    let a2 = ",\"discards\":0,\"time\":"@;
    let d2 = decimal(m.elapsed_us as nat);
    let t = json_quoted(d2 + "us"@);
    let a3 = ",\"counterexample\":"@;
    let c = json_optional(cex);
    let a4 = ",\"error\":"@;
    let e = json_optional(err);
    let a5 = ",\"tool\":"@;
    let qt = json_quoted(tool);
    let a6 = ",\"property\":"@;
    let qp = json_quoted(property);
    let a7 = "}"@;
    let r = json_record_text(tool, property, status, m, cex, err);
    assert(r == a0 + qs + a1 + d1 + a2 + t + a3 + c + a4 + e + a5 + qt + a6 + qp + a7);
    law_decimal_reads_back(m.inputs as nat);
    law_decimal_reads_back(m.elapsed_us as nat);
    reveal_strlit("us");
    reveal_strlit("\"");
    reveal_strlit("us\"");
    reveal_strlit("null");
    let us = "us"@;
    assert(us =~= seq!['u', 's']);
    assert(t == "\""@ + d2 + "us\""@) by {
        assert forall|i: int| 0 <= i < (d2 + us).len() implies json_plain(#[trigger] (d2 + us)[i]) by {
            if i < d2.len() {
                assert((d2 + us)[i] == d2[i]);
            }
        }
        lemma_json_escape_plain(d2 + us);
        assert(t =~= "\""@ + d2 + "us\""@);
    }
    assert(occurs_at(r, 0, a0 + qs + a1)) by {
        lemma_occurs_suffix(Seq::<char>::empty(), a0);
        assert(Seq::<char>::empty() + a0 =~= a0);
        lemma_occurs_grow(a0, 0, a0, qs);
        lemma_occurs_grow(a0 + qs, 0, a0 + qs, a1);
        lemma_occurs_append(a0 + qs + a1, 0, a0 + qs + a1, d1);
        lemma_occurs_append(a0 + qs + a1 + d1, 0, a0 + qs + a1, a2);
        lemma_occurs_append(a0 + qs + a1 + d1 + a2, 0, a0 + qs + a1, t);
        lemma_occurs_append(a0 + qs + a1 + d1 + a2 + t, 0, a0 + qs + a1, a3);
        lemma_occurs_append(a0 + qs + a1 + d1 + a2 + t + a3, 0, a0 + qs + a1, c);
        lemma_occurs_append(a0 + qs + a1 + d1 + a2 + t + a3 + c, 0, a0 + qs + a1, a4);
        lemma_occurs_append(a0 + qs + a1 + d1 + a2 + t + a3 + c + a4, 0, a0 + qs + a1, e);
        lemma_occurs_append(a0 + qs + a1 + d1 + a2 + t + a3 + c + a4 + e, 0, a0 + qs + a1, a5);
        lemma_occurs_append(a0 + qs + a1 + d1 + a2 + t + a3 + c + a4 + e + a5, 0, a0 + qs + a1, qt);
        lemma_occurs_append(a0 + qs + a1 + d1 + a2 + t + a3 + c + a4 + e + a5 + qt, 0, a0 + qs + a1, a6);
        lemma_occurs_append(a0 + qs + a1 + d1 + a2 + t + a3 + c + a4 + e + a5 + qt + a6, 0, a0 + qs + a1, qp);
        lemma_occurs_append(a0 + qs + a1 + d1 + a2 + t + a3 + c + a4 + e + a5 + qt + a6 + qp, 0, a0 + qs + a1, a7);
    }
    assert(occurs_at(r, (a0 + qs).len() as int, a1 + d1 + a2)) by {
        lemma_occurs_suffix(a0 + qs, a1);
        lemma_occurs_grow(a0 + qs + a1, (a0 + qs).len() as int, a1, d1);
        lemma_occurs_grow(a0 + qs + a1 + d1, (a0 + qs).len() as int, a1 + d1, a2);
        lemma_occurs_append(a0 + qs + a1 + d1 + a2, (a0 + qs).len() as int, a1 + d1 + a2, t);
        lemma_occurs_append(a0 + qs + a1 + d1 + a2 + t, (a0 + qs).len() as int, a1 + d1 + a2, a3);
        lemma_occurs_append(a0 + qs + a1 + d1 + a2 + t + a3, (a0 + qs).len() as int, a1 + d1 + a2, c);
        lemma_occurs_append(a0 + qs + a1 + d1 + a2 + t + a3 + c, (a0 + qs).len() as int, a1 + d1 + a2, a4);
        lemma_occurs_append(a0 + qs + a1 + d1 + a2 + t + a3 + c + a4, (a0 + qs).len() as int, a1 + d1 + a2, e);
        lemma_occurs_append(a0 + qs + a1 + d1 + a2 + t + a3 + c + a4 + e, (a0 + qs).len() as int, a1 + d1 + a2, a5);
        lemma_occurs_append(a0 + qs + a1 + d1 + a2 + t + a3 + c + a4 + e + a5, (a0 + qs).len() as int, a1 + d1 + a2, qt);
        lemma_occurs_append(a0 + qs + a1 + d1 + a2 + t + a3 + c + a4 + e + a5 + qt, (a0 + qs).len() as int, a1 + d1 + a2, a6);
        lemma_occurs_append(a0 + qs + a1 + d1 + a2 + t + a3 + c + a4 + e + a5 + qt + a6, (a0 + qs).len() as int, a1 + d1 + a2, qp);
        lemma_occurs_append(a0 + qs + a1 + d1 + a2 + t + a3 + c + a4 + e + a5 + qt + a6 + qp, (a0 + qs).len() as int, a1 + d1 + a2, a7);
    }
    assert(occurs_at(r, (a0 + qs + a1 + d1).len() as int, a2 + t + a3)) by {
        lemma_occurs_suffix(a0 + qs + a1 + d1, a2);
        lemma_occurs_grow(a0 + qs + a1 + d1 + a2, (a0 + qs + a1 + d1).len() as int, a2, t);
        lemma_occurs_grow(a0 + qs + a1 + d1 + a2 + t, (a0 + qs + a1 + d1).len() as int, a2 + t, a3);
        lemma_occurs_append(a0 + qs + a1 + d1 + a2 + t + a3, (a0 + qs + a1 + d1).len() as int, a2 + t + a3, c);
        lemma_occurs_append(a0 + qs + a1 + d1 + a2 + t + a3 + c, (a0 + qs + a1 + d1).len() as int, a2 + t + a3, a4);
        lemma_occurs_append(a0 + qs + a1 + d1 + a2 + t + a3 + c + a4, (a0 + qs + a1 + d1).len() as int, a2 + t + a3, e);
        lemma_occurs_append(a0 + qs + a1 + d1 + a2 + t + a3 + c + a4 + e, (a0 + qs + a1 + d1).len() as int, a2 + t + a3, a5);
        lemma_occurs_append(a0 + qs + a1 + d1 + a2 + t + a3 + c + a4 + e + a5, (a0 + qs + a1 + d1).len() as int, a2 + t + a3, qt);
        lemma_occurs_append(a0 + qs + a1 + d1 + a2 + t + a3 + c + a4 + e + a5 + qt, (a0 + qs + a1 + d1).len() as int, a2 + t + a3, a6);
        lemma_occurs_append(a0 + qs + a1 + d1 + a2 + t + a3 + c + a4 + e + a5 + qt + a6, (a0 + qs + a1 + d1).len() as int, a2 + t + a3, qp);
        lemma_occurs_append(a0 + qs + a1 + d1 + a2 + t + a3 + c + a4 + e + a5 + qt + a6 + qp, (a0 + qs + a1 + d1).len() as int, a2 + t + a3, a7);
    }
    assert(occurs_at(r, (a0 + qs + a1 + d1 + a2 + t).len() as int, a3 + c + a4)) by {
        lemma_occurs_suffix(a0 + qs + a1 + d1 + a2 + t, a3);
        lemma_occurs_grow(a0 + qs + a1 + d1 + a2 + t + a3, (a0 + qs + a1 + d1 + a2 + t).len() as int, a3, c);
        lemma_occurs_grow(a0 + qs + a1 + d1 + a2 + t + a3 + c, (a0 + qs + a1 + d1 + a2 + t).len() as int, a3 + c, a4);
        lemma_occurs_append(a0 + qs + a1 + d1 + a2 + t + a3 + c + a4, (a0 + qs + a1 + d1 + a2 + t).len() as int, a3 + c + a4, e);
        lemma_occurs_append(a0 + qs + a1 + d1 + a2 + t + a3 + c + a4 + e, (a0 + qs + a1 + d1 + a2 + t).len() as int, a3 + c + a4, a5);
        lemma_occurs_append(a0 + qs + a1 + d1 + a2 + t + a3 + c + a4 + e + a5, (a0 + qs + a1 + d1 + a2 + t).len() as int, a3 + c + a4, qt);
        lemma_occurs_append(a0 + qs + a1 + d1 + a2 + t + a3 + c + a4 + e + a5 + qt, (a0 + qs + a1 + d1 + a2 + t).len() as int, a3 + c + a4, a6);
        lemma_occurs_append(a0 + qs + a1 + d1 + a2 + t + a3 + c + a4 + e + a5 + qt + a6, (a0 + qs + a1 + d1 + a2 + t).len() as int, a3 + c + a4, qp);
        lemma_occurs_append(a0 + qs + a1 + d1 + a2 + t + a3 + c + a4 + e + a5 + qt + a6 + qp, (a0 + qs + a1 + d1 + a2 + t).len() as int, a3 + c + a4, a7);
    }
    assert(occurs_at(r, (a0 + qs + a1 + d1 + a2 + t + a3 + c).len() as int, a4 + e + a5)) by {
        lemma_occurs_suffix(a0 + qs + a1 + d1 + a2 + t + a3 + c, a4);
        lemma_occurs_grow(a0 + qs + a1 + d1 + a2 + t + a3 + c + a4, (a0 + qs + a1 + d1 + a2 + t + a3 + c).len() as int, a4, e);
        lemma_occurs_grow(a0 + qs + a1 + d1 + a2 + t + a3 + c + a4 + e, (a0 + qs + a1 + d1 + a2 + t + a3 + c).len() as int, a4 + e, a5);
        lemma_occurs_append(a0 + qs + a1 + d1 + a2 + t + a3 + c + a4 + e + a5, (a0 + qs + a1 + d1 + a2 + t + a3 + c).len() as int, a4 + e + a5, qt);
        lemma_occurs_append(a0 + qs + a1 + d1 + a2 + t + a3 + c + a4 + e + a5 + qt, (a0 + qs + a1 + d1 + a2 + t + a3 + c).len() as int, a4 + e + a5, a6);
        lemma_occurs_append(a0 + qs + a1 + d1 + a2 + t + a3 + c + a4 + e + a5 + qt + a6, (a0 + qs + a1 + d1 + a2 + t + a3 + c).len() as int, a4 + e + a5, qp);
        lemma_occurs_append(a0 + qs + a1 + d1 + a2 + t + a3 + c + a4 + e + a5 + qt + a6 + qp, (a0 + qs + a1 + d1 + a2 + t + a3 + c).len() as int, a4 + e + a5, a7);
    }
    assert(occurs_at(r, (a0 + qs + a1 + d1 + a2 + t + a3 + c + a4 + e).len() as int, a5 + qt + a6)) by {
        lemma_occurs_suffix(a0 + qs + a1 + d1 + a2 + t + a3 + c + a4 + e, a5);
        lemma_occurs_grow(a0 + qs + a1 + d1 + a2 + t + a3 + c + a4 + e + a5, (a0 + qs + a1 + d1 + a2 + t + a3 + c + a4 + e).len() as int, a5, qt);
        lemma_occurs_grow(a0 + qs + a1 + d1 + a2 + t + a3 + c + a4 + e + a5 + qt, (a0 + qs + a1 + d1 + a2 + t + a3 + c + a4 + e).len() as int, a5 + qt, a6);
        lemma_occurs_append(a0 + qs + a1 + d1 + a2 + t + a3 + c + a4 + e + a5 + qt + a6, (a0 + qs + a1 + d1 + a2 + t + a3 + c + a4 + e).len() as int, a5 + qt + a6, qp);
        lemma_occurs_append(a0 + qs + a1 + d1 + a2 + t + a3 + c + a4 + e + a5 + qt + a6 + qp, (a0 + qs + a1 + d1 + a2 + t + a3 + c + a4 + e).len() as int, a5 + qt + a6, a7);
    }
    assert(occurs_at(r, (a0 + qs + a1 + d1 + a2 + t + a3 + c + a4 + e + a5 + qt).len() as int, a6 + qp + a7)) by {
        lemma_occurs_suffix(a0 + qs + a1 + d1 + a2 + t + a3 + c + a4 + e + a5 + qt, a6);
        lemma_occurs_grow(a0 + qs + a1 + d1 + a2 + t + a3 + c + a4 + e + a5 + qt + a6, (a0 + qs + a1 + d1 + a2 + t + a3 + c + a4 + e + a5 + qt).len() as int, a6, qp);
        lemma_occurs_grow(a0 + qs + a1 + d1 + a2 + t + a3 + c + a4 + e + a5 + qt + a6 + qp, (a0 + qs + a1 + d1 + a2 + t + a3 + c + a4 + e + a5 + qt).len() as int, a6 + qp, a7);
    }
    assert(a2 + t + a3 == a2 + "\""@ + d2 + "us\""@ + a3) by {
        assert(a2 + t + a3 =~= a2 + "\""@ + d2 + "us\""@ + a3);
    }
    if cex is Some {
        assert(c == json_quoted(cex->0));
    } else {
        assert(c == "null"@);
    }
    if err is Some {
        assert(e == json_quoted(err->0));
    } else {
        assert(e == "null"@);
    }
    let k_tests = (a0 + qs).len() as int;
    let k_time = (a0 + qs + a1 + d1).len() as int;
    let k_cex = (a0 + qs + a1 + d1 + a2 + t).len() as int;
    let k_err = (a0 + qs + a1 + d1 + a2 + t + a3 + c).len() as int;
    let k_tool = (a0 + qs + a1 + d1 + a2 + t + a3 + c + a4 + e).len() as int;
    let k_prop = (a0 + qs + a1 + d1 + a2 + t + a3 + c + a4 + e + a5 + qt).len() as int;
    assert(occurs_at(r, k_tests, a1 + d1 + a2));
    assert(occurs_at(r, k_time, a2 + "\""@ + d2 + "us\""@ + a3));
    assert(occurs_at(r, k_cex, a3 + c + a4));
    assert(occurs_at(r, k_err, a4 + e + a5));
    assert(occurs_at(r, k_tool, a5 + qt + a6));
    assert(occurs_at(r, k_prop, a6 + qp + a7));
    assert(k_prop + (a6 + qp + a7).len() == r.len());
}

/// Appends `s` as JSON: its string literal, or `null`.
fn push_json_optional(out: &mut String, s: Option<&str>)
    ensures
        final(out)@ == old(out)@ + json_optional(optional_view(s)),
{
    match s {
        Some(t) => {
            let q = json_str(t);
            out.append(q.as_str());
        },
        None => {
            let ghost start = out@;
            push_char(out, 'n');
            push_char(out, 'u');
            push_char(out, 'l');
            push_char(out, 'l');
            assert(out@ =~= start + seq!['n', 'u', 'l', 'l']);
        },
    }
}

/// The one-line JSON report of a run of `property` under `tool`.
pub fn json_record(
    tool: &str,
    property: &str,
    status: &str,
    m: Metrics,
    cex: Option<&str>,
    err: Option<&str>,
) -> (r: String)
    ensures
        r@ == json_record_text(tool@, property@, status@, m, optional_view(cex), optional_view(err)),
{
    let mut out = String::new();
    out.append("{\"status\":");
    let s = json_str(status);
    out.append(s.as_str());
    out.append(",\"tests\":");
    push_decimal(&mut out, m.inputs as u128);
    out.append(",\"discards\":0,\"time\":");
    let mut time = String::new();
    push_decimal(&mut time, m.elapsed_us);
    time.append("us");
    let t = json_str(time.as_str());
    out.append(t.as_str());
    out.append(",\"counterexample\":");
    push_json_optional(&mut out, cex);
    out.append(",\"error\":");
    push_json_optional(&mut out, err);
    out.append(",\"tool\":");
    let tl = json_str(tool);
    out.append(tl.as_str());
    out.append(",\"property\":");
    let p = json_str(property);
    out.append(p.as_str());
    out.append("}");
    assert(out@ =~= json_record_text(tool@, property@, status@, m, optional_view(cex), optional_view(err)));
    out
}

} // verus!
