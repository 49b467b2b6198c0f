//! Output variables: name and value pairs that a later step of a workflow reads.

use crate::text::{append, to_chars, to_string};
use vstd::prelude::*;

verus! {

/// A name and a value, written as one line `name=value`.
///
/// The value cannot span lines.
#[derive(Debug, Clone)]
pub struct OutputVariable {
    /// The variable's name.
    pub name: String,
    /// The variable's value.
    pub value: String,
}

/// The line that stands for a variable: its name, `=`, its value.
pub open spec fn variable_line(name: Seq<char>, value: Seq<char>) -> Seq<char> {
    name + seq!['='] + value
}

/// What is written for `vars`: for each its line, a line break and an empty line.
pub open spec fn variable_lines(vars: Seq<OutputVariable>) -> Seq<char>
    decreases vars.len(),
{
    if vars.len() == 0 {
        Seq::empty()
    } else {
        variable_lines(vars.drop_last()) + variable_line(vars.last().name@, vars.last().value@)
            + seq!['\n', '\n']
    }
}

/// The position of the first of `vars` whose value spans lines, or the length
/// of `vars` if there is none.
pub open spec fn first_malformed(vars: Seq<OutputVariable>, from: int) -> int
    decreases vars.len() - from,
{
    if from < 0 || from >= vars.len() {
        vars.len() as int
    } else if !vars[from].is_valid() {
        from
    } else {
        first_malformed(vars, from + 1)
    }
}

impl OutputVariable {
    /// The value holds no line break.
    pub open spec fn is_valid(&self) -> bool {
        !self.value@.contains('\n')
    }

    /// Whether the variable is well-formed: its value holds no line break.
    pub fn validate(&self) -> (valid: bool)
        ensures
            valid == self.is_valid(),
    {
        let value = to_chars(self.value.as_str());
        let mut i: usize = 0;
        while i < value.len()
            invariant
                i <= value.len(),
                value@ == self.value@,
                forall|k: int| 0 <= k < i ==> value@[k] != '\n',
            decreases value.len() - i,
        {
            if value[i] == '\n' {
                return false;
            }
            i += 1;
        }
        true
    }

    /// The variable as one line, `name=value`, without a line break.
    pub fn to_string(&self) -> (line: String)
        ensures
            line@ == variable_line(self.name@, self.value@),
    {
        let mut line = to_chars(self.name.as_str());
        line.push('=');
        let value = to_chars(self.value.as_str());
        append(&mut line, &value);
        to_string(&line)
    }
}

/// What to write for a list of variables, and where the list went wrong.
#[derive(Debug)]
pub struct OutputVariableLines {
    /// The text to append to the output file: the lines of the variables
    /// before the first malformed one.
    pub text: String,
    /// The position of the first malformed variable, if there is one.
    pub rejected: Option<usize>,
}

/// Lays out `vars` for the output file, up to the first that is malformed.
pub fn write_output_variables(vars: &Vec<OutputVariable>) -> (lines: OutputVariableLines)
    ensures
        ({
            let stop = first_malformed(vars@, 0);
            &&& lines.text@ == variable_lines(vars@.take(stop))
            &&& lines.rejected is Some <==> stop < vars@.len()
            &&& lines.rejected matches Some(at) ==> at == stop
        }),
{
    let mut text: Vec<char> = Vec::new();
    let mut i: usize = 0;
    let mut rejected: Option<usize> = None;
    while i < vars.len()
        invariant_except_break
            rejected is None,
            first_malformed(vars@, 0) == first_malformed(vars@, i as int),
        invariant
            i <= vars.len(),
            text@ == variable_lines(vars@.take(i as int)),
        ensures
            i == first_malformed(vars@, 0),
            text@ == variable_lines(vars@.take(i as int)),
            rejected is Some <==> i < vars.len(),
            rejected matches Some(at) ==> at == i,
        decreases vars.len() - i,
    {
        if !vars[i].validate() {
            rejected = Some(i);
            break ;
        }
        let name = to_chars(vars[i].name.as_str());
        let value = to_chars(vars[i].value.as_str());
        append(&mut text, &name);
        text.push('=');
        append(&mut text, &value);
        text.push('\n');
        text.push('\n');
        proof {
            assert(vars@.take(i + 1).drop_last() == vars@.take(i as int));
        }
        i += 1;
    }
    OutputVariableLines { text: to_string(&text), rejected }
}

} // verus!
