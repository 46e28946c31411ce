use vstd::prelude::*;

use crate::text::copy_str;

verus! {
/// A filter offered for completion, with its description.
#[derive(Debug)]
pub struct FilterCompletion {
    pub name: String,
    pub desc: String,
}
impl FilterCompletion {
    /// A completion from a name and its description.
    pub fn from(value: (&str, &str)) -> (r: FilterCompletion)
        ensures
            r.name@ == value.0@,
            r.desc@ == value.1@,
    {
        FilterCompletion { name: copy_str(value.0), desc: copy_str(value.1) }
    }
}
/// The names of the filters, in the order they are offered.
pub open spec fn filter_names() -> Seq<Seq<char>> {
    seq![
        "abs"@,
        "attr"@,
        "batch"@,
        "bool"@,
        "capitalize"@,
        "default"@,
        "dictsort"@,
        "escape"@,
        "first"@,
        "float"@,
        "indent"@,
        "int"@,
        "items"@,
        "join"@,
        "last"@,
        "length"@,
        "list"@,
        "lower"@,
        "map"@,
        "max"@,
        "min"@,
        "pprint"@,
        "rejectattr"@,
        "reject"@,
        "replace"@,
        "reverse"@,
        "round"@,
        "safe"@,
        "selectattr"@,
        "select"@,
        "slice"@,
        "sort"@,
        "title"@,
        "tojson"@,
        "trim"@,
        "unique"@,
        "upper"@,
        "urlencode"@,
    ]
}
/// The description given for the i-th name, or nothing.
pub open spec fn description_at(descriptions: Seq<String>, i: int) -> Seq<char> {
    if i < descriptions.len() {
        descriptions[i]@
    } else {
        Seq::empty()
    }
}

fn push_named(v: &mut Vec<FilterCompletion>, name: &str, descriptions: &Vec<String>)
    ensures
        final(v)@.len() == old(v)@.len() + 1,
        forall|k: int| 0 <= k < old(v)@.len() ==> #[trigger] final(v)@[k] == old(v)@[k],
        final(v)@.last().name@ == name@,
        final(v)@.last().desc@ == description_at(descriptions@, old(v)@.len() as int),
{
    let i = v.len();
    let desc = if i < descriptions.len() {
        copy_str(descriptions[i].as_str())
    } else {
        String::new()
    };
    v.push(FilterCompletion::from((name, desc.as_str())));
}

/// The completions of the filters: each name with its description.  The
/// descriptions are given in the order of the names; a name past the end
/// of `descriptions` gets an empty one.  The names are those the older
/// server offers, each once (`classic::filters::lemma_same_filters`).
pub fn init_filter_completions(descriptions: &Vec<String>) -> (r: Vec<FilterCompletion>)
    ensures
        r@.len() == filter_names().len(),
        forall|i: int| 0 <= i < r@.len() ==> (#[trigger] r@[i]).name@ == filter_names()[i]
            && r@[i].desc@ == description_at(descriptions@, i),
{
    let mut v: Vec<FilterCompletion> = Vec::new();
    push_named(&mut v, "abs", descriptions);
    push_named(&mut v, "attr", descriptions);
    push_named(&mut v, "batch", descriptions);
    push_named(&mut v, "bool", descriptions);
    push_named(&mut v, "capitalize", descriptions);
    push_named(&mut v, "default", descriptions);
    push_named(&mut v, "dictsort", descriptions);
    push_named(&mut v, "escape", descriptions);
    push_named(&mut v, "first", descriptions);
    push_named(&mut v, "float", descriptions);
    push_named(&mut v, "indent", descriptions);
    push_named(&mut v, "int", descriptions);
    push_named(&mut v, "items", descriptions);
    push_named(&mut v, "join", descriptions);
    push_named(&mut v, "last", descriptions);
    push_named(&mut v, "length", descriptions);
    push_named(&mut v, "list", descriptions);
    push_named(&mut v, "lower", descriptions);
    push_named(&mut v, "map", descriptions);
    push_named(&mut v, "max", descriptions);
    push_named(&mut v, "min", descriptions);
    push_named(&mut v, "pprint", descriptions);
    push_named(&mut v, "rejectattr", descriptions);
    push_named(&mut v, "reject", descriptions);
    push_named(&mut v, "replace", descriptions);
    push_named(&mut v, "reverse", descriptions);
    push_named(&mut v, "round", descriptions);
    push_named(&mut v, "safe", descriptions);
    push_named(&mut v, "selectattr", descriptions);
    push_named(&mut v, "select", descriptions);
    push_named(&mut v, "slice", descriptions);
    push_named(&mut v, "sort", descriptions);
    push_named(&mut v, "title", descriptions);
    push_named(&mut v, "tojson", descriptions);
    push_named(&mut v, "trim", descriptions);
    push_named(&mut v, "unique", descriptions);
    push_named(&mut v, "upper", descriptions);
    push_named(&mut v, "urlencode", descriptions);
    proof {
        assert(v@.len() == filter_names().len());
        assert forall|i: int| 0 <= i < v@.len() implies (#[trigger] v@[i]).name@ == filter_names()[i]
            && v@[i].desc@ == description_at(descriptions@, i) by {
        }
    }
    v
}

} // verus!
