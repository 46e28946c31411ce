use vstd::prelude::*;

use crate::text::copy_str;

verus! {
/// A test offered for completion after `is`, with its description.
#[derive(Debug)]
pub struct TemplateTestCompletion {
    pub name: String,
    pub desc: String,
}
impl TemplateTestCompletion {
    /// A completion from a name and its description.
    pub fn from(value: (&str, &str)) -> (r: TemplateTestCompletion)
        ensures
            r.name@ == value.0@,
            r.desc@ == value.1@,
    {
        TemplateTestCompletion { name: copy_str(value.0), desc: copy_str(value.1) }
    }
}
/// The names of the tests, in the order they are offered.
pub open spec fn test_names() -> Seq<Seq<char>> {
    seq![
        "boolean"@,
        "defined"@,
        "divisibleby"@,
        "endingwith"@,
        "eq"@,
        "even"@,
        "false"@,
        "filter"@,
        "float"@,
        "ge"@,
        "gt"@,
        "in"@,
        "integer"@,
        "iterable"@,
        "le"@,
        "lower"@,
        "lt"@,
        "mapping"@,
        "ne"@,
        "none"@,
        "number"@,
        "odd"@,
        "safe"@,
        "sameas"@,
        "sequence"@,
        "startingwith"@,
        "string"@,
        "test"@,
        "true"@,
        "undefined"@,
        "upper"@,
    ]
}
/// The description given for the i-th name, or nothing.
pub open spec fn description_at(descriptions: Seq<String>, i: int) -> Seq<char> {
    if i < descriptions.len() {
        descriptions[i]@
    } else {
        Seq::empty()
    }
}

fn push_named(v: &mut Vec<TemplateTestCompletion>, name: &str, descriptions: &Vec<String>)
    ensures
        final(v)@.len() == old(v)@.len() + 1,
        forall|k: int| 0 <= k < old(v)@.len() ==> #[trigger] final(v)@[k] == old(v)@[k],
        final(v)@.last().name@ == name@,
        final(v)@.last().desc@ == description_at(descriptions@, old(v)@.len() as int),
{
    let i = v.len();
    let desc = if i < descriptions.len() {
        copy_str(descriptions[i].as_str())
    } else {
        String::new()
    };
    v.push(TemplateTestCompletion::from((name, desc.as_str())));
}

/// The completions of the tests: each name with its description.  The
/// descriptions are given in the order of the names; a name past the end
/// of `descriptions` gets an empty one.
pub fn init_template_test_completions(descriptions: &Vec<String>) -> (r: Vec<TemplateTestCompletion>)
    ensures
        r@.len() == test_names().len(),
        forall|i: int| 0 <= i < r@.len() ==> (#[trigger] r@[i]).name@ == test_names()[i]
            && r@[i].desc@ == description_at(descriptions@, i),
{
    let mut v: Vec<TemplateTestCompletion> = Vec::new();
    push_named(&mut v, "boolean", descriptions);
    push_named(&mut v, "defined", descriptions);
    push_named(&mut v, "divisibleby", descriptions);
    push_named(&mut v, "endingwith", descriptions);
    push_named(&mut v, "eq", descriptions);
    push_named(&mut v, "even", descriptions);
    push_named(&mut v, "false", descriptions);
    push_named(&mut v, "filter", descriptions);
    push_named(&mut v, "float", descriptions);
    push_named(&mut v, "ge", descriptions);
    push_named(&mut v, "gt", descriptions);
    push_named(&mut v, "in", descriptions);
    push_named(&mut v, "integer", descriptions);
    push_named(&mut v, "iterable", descriptions);
    push_named(&mut v, "le", descriptions);
    push_named(&mut v, "lower", descriptions);
    push_named(&mut v, "lt", descriptions);
    push_named(&mut v, "mapping", descriptions);
    push_named(&mut v, "ne", descriptions);
    push_named(&mut v, "none", descriptions);
    push_named(&mut v, "number", descriptions);
    push_named(&mut v, "odd", descriptions);
    push_named(&mut v, "safe", descriptions);
    push_named(&mut v, "sameas", descriptions);
    push_named(&mut v, "sequence", descriptions);
    push_named(&mut v, "startingwith", descriptions);
    push_named(&mut v, "string", descriptions);
    push_named(&mut v, "test", descriptions);
    push_named(&mut v, "true", descriptions);
    push_named(&mut v, "undefined", descriptions);
    push_named(&mut v, "upper", descriptions);
    proof {
        assert(v@.len() == test_names().len());
        assert forall|i: int| 0 <= i < v@.len() implies (#[trigger] v@[i]).name@ == test_names()[i]
            && v@[i].desc@ == description_at(descriptions@, i) by {
        }
    }
    v
}

} // verus!
