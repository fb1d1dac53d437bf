//! What the user asks for.

use crate::converter::optimizer::options::OptimizationLevel;
use crate::converter::DEFAULT_OPSET;
use crate::text::{dec, digits_value, int_text, join, join3};
use vstd::prelude::*;
use vstd::std_specs::convert::FromSpecImpl;
use vstd::string::*;

verus! {

/// The opset to write a graph for.
#[derive(Clone, Copy, Debug, PartialEq, Eq, Structural)]
pub enum TargetOpset {
    /// The usual one.
    Auto,
    /// The given one.
    Version(i64),
}

impl TargetOpset {
    /// The number of the opset.
    pub open spec fn number(self) -> i64 {
        match self {
            TargetOpset::Auto => DEFAULT_OPSET,
            TargetOpset::Version(opset) => opset,
        }
    }

    /// The number of the opset.
    pub fn resolve(&self) -> (r: i64)
        ensures
            r == self.number(),
    {
        match self {
            TargetOpset::Auto => DEFAULT_OPSET,
            TargetOpset::Version(opset) => *opset,
        }
    }
}

/// Whether a text is `auto`, in letters of either case.
pub open spec fn is_auto(text: Seq<char>) -> bool {
    text.len() == 4 && (text[0] == 'a' || text[0] == 'A') && (text[1] == 'u' || text[1] == 'U') && (
    text[2] == 't' || text[2] == 'T') && (text[3] == 'o' || text[3] == 'O')
}

/// Whether a text is made of decimal digits, and there is one.
pub open spec fn all_digits(text: Seq<char>) -> bool {
    text.len() > 0 && forall|i: int| 0 <= i < text.len() ==> '0' <= #[trigger] text[i] <= '9'
}

/// The integer that a text stands for: digits, with or without a sign before them.
pub open spec fn integer_of(text: Seq<char>) -> Option<int> {
    if text.len() > 0 && text[0] == '-' {
        if all_digits(text.skip(1)) {
            Some(-digits_value(text.skip(1)))
        } else {
            None
        }
    } else if text.len() > 0 && text[0] == '+' {
        if all_digits(text.skip(1)) {
            Some(digits_value(text.skip(1)))
        } else {
            None
        }
    } else if all_digits(text) {
        Some(digits_value(text))
    } else {
        None
    }
}

/// The integer that a text stands for, where it fits `i64`.
pub open spec fn i64_of(text: Seq<char>) -> Option<i64> {
    match integer_of(text) {
        Some(i) => if i64::MIN <= i <= i64::MAX {
            Some(i as i64)
        } else {
            None
        },
        None => None,
    }
}

/// The opset that a text asks for, or the message that it asks for none that is supported.
pub open spec fn opset_of(text: Seq<char>) -> Result<TargetOpset, Seq<char>> {
    if is_auto(text) {
        Ok(TargetOpset::Auto)
    } else {
        match i64_of(text) {
            None => Err("Invalid opset value: "@ + text),
            Some(opset) => if opset < 10 {
                Err(
                    "Target ONNX opset must be >= 10, got "@ + dec(opset as int)
                        + ". Lower opsets are not supported."@,
                )
            } else {
                Ok(TargetOpset::Version(opset))
            },
        }
    }
}

/// No opset below ten is ever asked for: what a text is accepted as resolves to ten or more.
pub proof fn law_opset_at_least_ten(text: Seq<char>)
    requires
        opset_of(text) is Ok,
    ensures
        opset_of(text)->Ok_0.number() >= 10,
{
}

/// How much the user wants a graph to be optimized.
#[derive(Clone, Copy, Debug, PartialEq, Eq, Structural)]
pub enum CliOptimizationLevel {
    /// Not at all.
    Off,
    /// By every pass that keeps the meaning of the graph.
    Basic,
}

/// The optimizer's level for the user's.
pub open spec fn level_of(level: CliOptimizationLevel) -> OptimizationLevel {
    match level {
        CliOptimizationLevel::Off => OptimizationLevel::Off,
        CliOptimizationLevel::Basic => OptimizationLevel::Basic,
    }
}

impl From<CliOptimizationLevel> for OptimizationLevel {
    fn from(value: CliOptimizationLevel) -> (r: Self) {
        match value {
            CliOptimizationLevel::Off => OptimizationLevel::Off,
            CliOptimizationLevel::Basic => OptimizationLevel::Basic,
        }
    }
}

impl FromSpecImpl<CliOptimizationLevel> for OptimizationLevel {
    open spec fn obeys_from_spec() -> bool {
        true
    }

    open spec fn from_spec(value: CliOptimizationLevel) -> OptimizationLevel {
        level_of(value)
    }
}

/// What the user asks for.
#[derive(Debug)]
pub struct Cli {
    /// The path of the model description.
    pub model_json: String,
    /// The path of the parameters.
    pub model_pdiparams: String,
    /// The path of the model to write.
    pub output_onnx: String,
    /// The opset to write it for.
    pub opset: TargetOpset,
    /// How much to optimize it.
    pub optimize: CliOptimizationLevel,
    /// Whether lossy lowerings are refused.
    pub strict: bool,
}

/// The content of a [`Cli`].
pub struct Request {
    pub model_json: Seq<char>,
    pub model_pdiparams: Seq<char>,
    pub output_onnx: Seq<char>,
    pub opset: TargetOpset,
    pub optimize: CliOptimizationLevel,
    pub strict: bool,
}

impl View for Cli {
    type V = Request;

    open spec fn view(&self) -> Request {
        Request {
            model_json: self.model_json@,
            model_pdiparams: self.model_pdiparams@,
            output_onnx: self.output_onnx@,
            opset: self.opset,
            optimize: self.optimize,
            strict: self.strict,
        }
    }
}

fn digits_at(text: &str, from: usize, count: usize) -> (r: Option<u128>)
    requires
        from <= count == text@.len(),
    ensures
        match r {
            Some(n) => all_digits(text@.skip(from as int)) && (n == digits_value(
                text@.skip(from as int),
            ) || (n == DIGITS_LIMIT && digits_value(text@.skip(from as int)) >= DIGITS_LIMIT)),
            None => !all_digits(text@.skip(from as int)),
        },
{
    let ghost rest = text@.skip(from as int);
    if from >= count {
        return None;
    }
    let mut n: u128 = 0;
    let mut i: usize = from;
    while i < count
        invariant
            from <= i <= count,
            count == text@.len(),
            rest == text@.skip(from as int),
            n <= DIGITS_LIMIT,
            forall|k: int| 0 <= k < i - from ==> '0' <= #[trigger] rest[k] <= '9',
            n == digits_value(rest.take(i - from)) || (n == DIGITS_LIMIT && digits_value(
                rest.take(i - from),
            ) >= DIGITS_LIMIT),
        decreases count - i,
    {
        let c = text.get_char(i);
        proof {
            assert(rest[i - from] == c);
        }
        if !('0' <= c && c <= '9') {
            return None;
        }
        proof {
            let front = rest.take(i - from);
            let more = rest.take(i + 1 - from);
            assert(more.drop_last() =~= front);
            assert(more.last() == c);
        }
        let d: u128 = c as u128 - '0' as u128;
        n = n * 10 + d;
        if n > DIGITS_LIMIT {
            n = DIGITS_LIMIT;
        }
        i = i + 1;
    }
    proof {
        assert(rest.take(i - from) =~= rest);
    }
    Some(n)
}

/// More than any `i64` needs.
const DIGITS_LIMIT: u128 = 0x1_0000_0000_0000_0000;

fn parse_i64(text: &str) -> (r: Option<i64>)
    ensures
        r == i64_of(text@),
{
    let count: usize = text.unicode_len();
    if count == 0 {
        return None;
    }
    let first = text.get_char(0);
    if first == '-' {
        match digits_at(text, 1, count) {
            Some(n) => if n <= 0x8000_0000_0000_0000 {
                Some((-(n as i128)) as i64)
            } else {
                None
            },
            None => None,
        }
    } else if first == '+' {
        match digits_at(text, 1, count) {
            Some(n) => if n <= 0x7FFF_FFFF_FFFF_FFFF {
                Some(n as i64)
            } else {
                None
            },
            None => None,
        }
    } else {
        proof {
            assert(text@.skip(0) =~= text@);
        }
        match digits_at(text, 0, count) {
            Some(n) => if n <= 0x7FFF_FFFF_FFFF_FFFF {
                Some(n as i64)
            } else {
                None
            },
            None => None,
        }
    }
}

fn asks_auto(text: &str) -> (r: bool)
    ensures
        r == is_auto(text@),
{
    if text.unicode_len() != 4 {
        return false;
    }
    let a = text.get_char(0);
    let b = text.get_char(1);
    let c = text.get_char(2);
    let d = text.get_char(3);
    (a == 'a' || a == 'A') && (b == 'u' || b == 'U') && (c == 't' || c == 'T') && (d == 'o' || d
        == 'O')
}

/// The opset that a text asks for.
pub fn parse_target_opset(raw: &str) -> (r: Result<TargetOpset, String>)
    ensures
        match r {
            Ok(opset) => opset_of(raw@) == Ok::<TargetOpset, Seq<char>>(opset),
            Err(text) => opset_of(raw@) == Err::<TargetOpset, Seq<char>>(text@),
        },
{
    if asks_auto(raw) {
        return Ok(TargetOpset::Auto);
    }
    match parse_i64(raw) {
        None => Err(join("Invalid opset value: ", raw)),
        Some(opset) => {
            if opset < 10 {
                return Err(
                    join3(
                        "Target ONNX opset must be >= 10, got ",
                        int_text(opset).as_str(),
                        ". Lower opsets are not supported.",
                    ),
                );
            }
            Ok(TargetOpset::Version(opset))
        },
    }
}

impl Cli {
    /// What the user asks for: an opset that is not given is the usual one by its number, and an
    /// optimization that is not given is the basic one.
    pub fn new(
        model_json: String,
        model_pdiparams: String,
        output_onnx: String,
        opset: Option<&str>,
        optimize: Option<CliOptimizationLevel>,
        strict: bool,
    ) -> (r: Result<Cli, String>)
        ensures
            match r {
                Ok(cli) => cli@ == (Request {
                    model_json: model_json@,
                    model_pdiparams: model_pdiparams@,
                    output_onnx: output_onnx@,
                    opset: cli@.opset,
                    optimize: match optimize {
                        Some(level) => level,
                        None => CliOptimizationLevel::Basic,
                    },
                    strict,
                }) && match opset {
                    Some(text) => opset_of(text@) == Ok::<TargetOpset, Seq<char>>(cli@.opset),
                    None => cli@.opset == TargetOpset::Version(DEFAULT_OPSET),
                },
                Err(text) => opset is Some && opset_of(opset->0@) == Err::<
                    TargetOpset,
                    Seq<char>,
                >(text@),
            },
    {
        let opset = match opset {
            Some(text) => parse_target_opset(text)?,
            None => TargetOpset::Version(DEFAULT_OPSET),
        };
        let optimize = match optimize {
            Some(level) => level,
            None => CliOptimizationLevel::Basic,
        };
        Ok(Cli { model_json, model_pdiparams, output_onnx, opset, optimize, strict })
    }
}

} // verus!
