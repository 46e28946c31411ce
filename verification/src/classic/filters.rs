use vstd::prelude::*;

use crate::lsp::filter::filter_names;
use crate::text::copy_str;

verus! {

/// A filter offered for completion, with its description.
#[derive(Debug)]
pub struct HxCompletion {
    pub name: String,
    pub desc: String,
}

impl HxCompletion {
    /// A completion from a name and its description.
    pub fn from(value: &(&str, &str)) -> (r: HxCompletion)
        ensures
            r.name@ == value.0@,
            r.desc@ == value.1@,
    {
        HxCompletion { name: copy_str(value.0), desc: copy_str(value.1) }
    }
}

/// The completions of pairs of a name and a description, in order.
pub fn to_filter_completions(values: Vec<(&str, &str)>) -> (r: Vec<HxCompletion>)
    ensures
        r@.len() == values@.len(),
        forall|i: int| 0 <= i < r@.len() ==> (#[trigger] r@[i]).name@ == values@[i].0@ && r@[i].desc@ == values@[i].1@,
{
    let mut r: Vec<HxCompletion> = Vec::new();
    let mut i: usize = 0;
    while i < values.len()
        invariant
            i <= values@.len(),
            r@.len() == i,
            forall|k: int| 0 <= k < i ==> (#[trigger] r@[k]).name@ == values@[k].0@ && r@[k].desc@ == values@[k].1@,
        decreases values.len() - i,
    {
        r.push(HxCompletion::from(&values[i]));
        i = i + 1;
    }
    r
}

/// The names of the filters, in the order they are recorded.
pub open spec fn classic_filter_names() -> Seq<Seq<char>> {
    seq![
        "selectattr"@,
        "map"@,
        "reject"@,
        "join"@,
        "slice"@,
        "upper"@,
        "escape"@,
        "items"@,
        "max"@,
        "tojson"@,
        "rejectattr"@,
        "safe"@,
        "int"@,
        "batch"@,
        "first"@,
        "abs"@,
        "indent"@,
        "urlencode"@,
        "trim"@,
        "float"@,
        "sort"@,
        "reverse"@,
        "attr"@,
        "title"@,
        "unique"@,
        "select"@,
        "round"@,
        "lower"@,
        "last"@,
        "bool"@,
        "capitalize"@,
        "list"@,
        "dictsort"@,
        "length"@,
        "replace"@,
        "pprint"@,
        "min"@,
        "default"@,
    ]
}

/// The description given for the i-th name, or nothing.
pub open spec fn description_at(descriptions: Seq<String>, i: int) -> Seq<char> {
    if i < descriptions.len() {
        descriptions[i]@
    } else {
        Seq::empty()
    }
}

fn push_filter(v: &mut Vec<(String, String)>, name: &str, descriptions: &Vec<String>)
    ensures
        final(v)@.len() == old(v)@.len() + 1,
        forall|k: int| 0 <= k < old(v)@.len() ==> #[trigger] final(v)@[k] == old(v)@[k],
        final(v)@.last().0@ == name@,
        final(v)@.last().1@ == description_at(descriptions@, old(v)@.len() as int),
{
    let i = v.len();
    let desc = if i < descriptions.len() {
        copy_str(descriptions[i].as_str())
    } else {
        String::new()
    };
    v.push((copy_str(name), desc));
}

/// The filters and their descriptions, by name: the i-th name with the
/// i-th description, or an empty one past the end of `descriptions`.  The
/// names are those the newer server offers, each once
/// (`lemma_same_filters`).
pub fn init_filter_completions(descriptions: &Vec<String>) -> (r: Vec<(String, String)>)
    ensures
        r@.len() == classic_filter_names().len(),
        forall|i: int| 0 <= i < r@.len() ==> (#[trigger] r@[i]).0@ == classic_filter_names()[i]
            && r@[i].1@ == description_at(descriptions@, i),
{
    let mut v: Vec<(String, String)> = Vec::new();
    push_filter(&mut v, "selectattr", descriptions);
    push_filter(&mut v, "map", descriptions);
    push_filter(&mut v, "reject", descriptions);
    push_filter(&mut v, "join", descriptions);
    push_filter(&mut v, "slice", descriptions);
    push_filter(&mut v, "upper", descriptions);
    push_filter(&mut v, "escape", descriptions);
    push_filter(&mut v, "items", descriptions);
    push_filter(&mut v, "max", descriptions);
    push_filter(&mut v, "tojson", descriptions);
    push_filter(&mut v, "rejectattr", descriptions);
    push_filter(&mut v, "safe", descriptions);
    push_filter(&mut v, "int", descriptions);
    push_filter(&mut v, "batch", descriptions);
    push_filter(&mut v, "first", descriptions);
    push_filter(&mut v, "abs", descriptions);
    push_filter(&mut v, "indent", descriptions);
    push_filter(&mut v, "urlencode", descriptions);
    push_filter(&mut v, "trim", descriptions);
    push_filter(&mut v, "float", descriptions);
    push_filter(&mut v, "sort", descriptions);
    push_filter(&mut v, "reverse", descriptions);
    push_filter(&mut v, "attr", descriptions);
    push_filter(&mut v, "title", descriptions);
    push_filter(&mut v, "unique", descriptions);
    push_filter(&mut v, "select", descriptions);
    push_filter(&mut v, "round", descriptions);
    push_filter(&mut v, "lower", descriptions);
    push_filter(&mut v, "last", descriptions);
    push_filter(&mut v, "bool", descriptions);
    push_filter(&mut v, "capitalize", descriptions);
    push_filter(&mut v, "list", descriptions);
    push_filter(&mut v, "dictsort", descriptions);
    push_filter(&mut v, "length", descriptions);
    push_filter(&mut v, "replace", descriptions);
    push_filter(&mut v, "pprint", descriptions);
    push_filter(&mut v, "min", descriptions);
    push_filter(&mut v, "default", descriptions);
    v
}


/// Both servers offer the same filters: every name of the one list is in
/// the other, and neither list names a filter twice.
pub proof fn lemma_same_filters()
    ensures
        filter_names().to_set() == classic_filter_names().to_set(),
        filter_names().no_duplicates(),
        classic_filter_names().no_duplicates(),
{
    let a = filter_names();
    let b = classic_filter_names();
    assert forall|i: int| 0 <= i < a.len() implies b.contains(#[trigger] a[i]) by {
        if i == 0 { assert(b[15] == a[0]);
        } else if i == 1 { assert(b[22] == a[1]);
        } else if i == 2 { assert(b[13] == a[2]);
        } else if i == 3 { assert(b[29] == a[3]);
        } else if i == 4 { assert(b[30] == a[4]);
        } else if i == 5 { assert(b[37] == a[5]);
        } else if i == 6 { assert(b[32] == a[6]);
        } else if i == 7 { assert(b[6] == a[7]);
        } else if i == 8 { assert(b[14] == a[8]);
        } else if i == 9 { assert(b[19] == a[9]);
        } else if i == 10 { assert(b[16] == a[10]);
        } else if i == 11 { assert(b[12] == a[11]);
        } else if i == 12 { assert(b[7] == a[12]);
        } else if i == 13 { assert(b[3] == a[13]);
        } else if i == 14 { assert(b[28] == a[14]);
        } else if i == 15 { assert(b[33] == a[15]);
        } else if i == 16 { assert(b[31] == a[16]);
        } else if i == 17 { assert(b[27] == a[17]);
        } else if i == 18 { assert(b[1] == a[18]);
        } else if i == 19 { assert(b[8] == a[19]);
        } else if i == 20 { assert(b[36] == a[20]);
        } else if i == 21 { assert(b[35] == a[21]);
        } else if i == 22 { assert(b[10] == a[22]);
        } else if i == 23 { assert(b[2] == a[23]);
        } else if i == 24 { assert(b[34] == a[24]);
        } else if i == 25 { assert(b[21] == a[25]);
        } else if i == 26 { assert(b[26] == a[26]);
        } else if i == 27 { assert(b[11] == a[27]);
        } else if i == 28 { assert(b[0] == a[28]);
        } else if i == 29 { assert(b[25] == a[29]);
        } else if i == 30 { assert(b[4] == a[30]);
        } else if i == 31 { assert(b[20] == a[31]);
        } else if i == 32 { assert(b[23] == a[32]);
        } else if i == 33 { assert(b[9] == a[33]);
        } else if i == 34 { assert(b[18] == a[34]);
        } else if i == 35 { assert(b[24] == a[35]);
        } else if i == 36 { assert(b[5] == a[36]);
        } else if i == 37 { assert(b[17] == a[37]);
        }
    }
    assert forall|j: int| 0 <= j < b.len() implies a.contains(#[trigger] b[j]) by {
        if j == 0 { assert(a[28] == b[0]);
        } else if j == 1 { assert(a[18] == b[1]);
        } else if j == 2 { assert(a[23] == b[2]);
        } else if j == 3 { assert(a[13] == b[3]);
        } else if j == 4 { assert(a[30] == b[4]);
        } else if j == 5 { assert(a[36] == b[5]);
        } else if j == 6 { assert(a[7] == b[6]);
        } else if j == 7 { assert(a[12] == b[7]);
        } else if j == 8 { assert(a[19] == b[8]);
        } else if j == 9 { assert(a[33] == b[9]);
        } else if j == 10 { assert(a[22] == b[10]);
        } else if j == 11 { assert(a[27] == b[11]);
        } else if j == 12 { assert(a[11] == b[12]);
        } else if j == 13 { assert(a[2] == b[13]);
        } else if j == 14 { assert(a[8] == b[14]);
        } else if j == 15 { assert(a[0] == b[15]);
        } else if j == 16 { assert(a[10] == b[16]);
        } else if j == 17 { assert(a[37] == b[17]);
        } else if j == 18 { assert(a[34] == b[18]);
        } else if j == 19 { assert(a[9] == b[19]);
        } else if j == 20 { assert(a[31] == b[20]);
        } else if j == 21 { assert(a[25] == b[21]);
        } else if j == 22 { assert(a[1] == b[22]);
        } else if j == 23 { assert(a[32] == b[23]);
        } else if j == 24 { assert(a[35] == b[24]);
        } else if j == 25 { assert(a[29] == b[25]);
        } else if j == 26 { assert(a[26] == b[26]);
        } else if j == 27 { assert(a[17] == b[27]);
        } else if j == 28 { assert(a[14] == b[28]);
        } else if j == 29 { assert(a[3] == b[29]);
        } else if j == 30 { assert(a[4] == b[30]);
        } else if j == 31 { assert(a[16] == b[31]);
        } else if j == 32 { assert(a[6] == b[32]);
        } else if j == 33 { assert(a[15] == b[33]);
        } else if j == 34 { assert(a[24] == b[34]);
        } else if j == 35 { assert(a[21] == b[35]);
        } else if j == 36 { assert(a[20] == b[36]);
        } else if j == 37 { assert(a[5] == b[37]);
        }
    }
    assert(a.to_set() =~= b.to_set());
    lemma_filter_names_distinct();
    a.unique_seq_to_set();
    b.lemma_no_dup_set_cardinality();
}

/// A list whose first `k` names are distinct stays so with the next name,
/// where that name differs from each of them.
proof fn lemma_extend_distinct(a: Seq<Seq<char>>, k: int)
    requires
        0 <= k < a.len(),
        a.take(k).no_duplicates(),
        forall|m: int| 0 <= m < k ==> #[trigger] a[m] != a[k],
    ensures
        a.take(k + 1).no_duplicates(),
{
    let t = a.take(k + 1);
    assert forall|i: int, j: int| 0 <= i < t.len() && 0 <= j < t.len() && i != j implies t[i] != t[j] by {
        if i < k && j < k {
            assert(a.take(k)[i] == t[i] && a.take(k)[j] == t[j]);
        }
    }
}

#[verifier::rlimit(100)]
proof fn lemma_filter_names_distinct()
    ensures
        filter_names().no_duplicates(),
{
    reveal_strlit("abs");
    reveal_strlit("attr");
    reveal_strlit("batch");
    reveal_strlit("bool");
    reveal_strlit("capitalize");
    reveal_strlit("default");
    reveal_strlit("dictsort");
    reveal_strlit("escape");
    reveal_strlit("first");
    reveal_strlit("float");
    reveal_strlit("indent");
    reveal_strlit("int");
    reveal_strlit("items");
    reveal_strlit("join");
    reveal_strlit("last");
    reveal_strlit("length");
    reveal_strlit("list");
    reveal_strlit("lower");
    reveal_strlit("map");
    reveal_strlit("max");
    reveal_strlit("min");
    reveal_strlit("pprint");
    reveal_strlit("rejectattr");
    reveal_strlit("reject");
    reveal_strlit("replace");
    reveal_strlit("reverse");
    reveal_strlit("round");
    reveal_strlit("safe");
    reveal_strlit("selectattr");
    reveal_strlit("select");
    reveal_strlit("slice");
    reveal_strlit("sort");
    reveal_strlit("title");
    reveal_strlit("tojson");
    reveal_strlit("trim");
    reveal_strlit("unique");
    reveal_strlit("upper");
    reveal_strlit("urlencode");
    let a = filter_names();
    assert(a[0] == "abs"@ && "abs"@.len() == 3);
    assert(a[1] == "attr"@ && "attr"@.len() == 4);
    assert(a[2] == "batch"@ && "batch"@.len() == 5);
    assert(a[3] == "bool"@ && "bool"@.len() == 4);
    assert(a[4] == "capitalize"@ && "capitalize"@.len() == 10);
    assert(a[5] == "default"@ && "default"@.len() == 7);
    assert(a[6] == "dictsort"@ && "dictsort"@.len() == 8);
    assert(a[7] == "escape"@ && "escape"@.len() == 6);
    assert(a[8] == "first"@ && "first"@.len() == 5);
    assert(a[9] == "float"@ && "float"@.len() == 5);
    assert(a[10] == "indent"@ && "indent"@.len() == 6);
    assert(a[11] == "int"@ && "int"@.len() == 3);
    assert(a[12] == "items"@ && "items"@.len() == 5);
    assert(a[13] == "join"@ && "join"@.len() == 4);
    assert(a[14] == "last"@ && "last"@.len() == 4);
    assert(a[15] == "length"@ && "length"@.len() == 6);
    assert(a[16] == "list"@ && "list"@.len() == 4);
    assert(a[17] == "lower"@ && "lower"@.len() == 5);
    assert(a[18] == "map"@ && "map"@.len() == 3);
    assert(a[19] == "max"@ && "max"@.len() == 3);
    assert(a[20] == "min"@ && "min"@.len() == 3);
    assert(a[21] == "pprint"@ && "pprint"@.len() == 6);
    assert(a[22] == "rejectattr"@ && "rejectattr"@.len() == 10);
    assert(a[23] == "reject"@ && "reject"@.len() == 6);
    assert(a[24] == "replace"@ && "replace"@.len() == 7);
    assert(a[25] == "reverse"@ && "reverse"@.len() == 7);
    assert(a[26] == "round"@ && "round"@.len() == 5);
    assert(a[27] == "safe"@ && "safe"@.len() == 4);
    assert(a[28] == "selectattr"@ && "selectattr"@.len() == 10);
    assert(a[29] == "select"@ && "select"@.len() == 6);
    assert(a[30] == "slice"@ && "slice"@.len() == 5);
    assert(a[31] == "sort"@ && "sort"@.len() == 4);
    assert(a[32] == "title"@ && "title"@.len() == 5);
    assert(a[33] == "tojson"@ && "tojson"@.len() == 6);
    assert(a[34] == "trim"@ && "trim"@.len() == 4);
    assert(a[35] == "unique"@ && "unique"@.len() == 6);
    assert(a[36] == "upper"@ && "upper"@.len() == 5);
    assert(a[37] == "urlencode"@ && "urlencode"@.len() == 9);
    assert(a.take(0).no_duplicates());
    lemma_extend_distinct(a, 0);
    assert forall|m: int| 0 <= m < 1 implies #[trigger] a[m] != a[1] by { if m == 0 { assert(a[0] != a[1]); } }
    lemma_extend_distinct(a, 1);
    assert forall|m: int| 0 <= m < 2 implies #[trigger] a[m] != a[2] by { if m == 0 { assert(a[0] != a[2]); } else if m == 1 { assert(a[1] != a[2]); } }
    lemma_extend_distinct(a, 2);
    assert("attr"@[0] != "bool"@[0]);
    assert forall|m: int| 0 <= m < 3 implies #[trigger] a[m] != a[3] by { if m == 0 { assert(a[0] != a[3]); } else if m == 1 { assert(a[1] != a[3]); } else if m == 2 { assert(a[2] != a[3]); } }
    lemma_extend_distinct(a, 3);
    assert forall|m: int| 0 <= m < 4 implies #[trigger] a[m] != a[4] by { if m == 0 { assert(a[0] != a[4]); } else if m == 1 { assert(a[1] != a[4]); } else if m == 2 { assert(a[2] != a[4]); } else if m == 3 { assert(a[3] != a[4]); } }
    lemma_extend_distinct(a, 4);
    assert forall|m: int| 0 <= m < 5 implies #[trigger] a[m] != a[5] by { if m == 0 { assert(a[0] != a[5]); } else if m == 1 { assert(a[1] != a[5]); } else if m == 2 { assert(a[2] != a[5]); } else if m == 3 { assert(a[3] != a[5]); } else if m == 4 { assert(a[4] != a[5]); } }
    lemma_extend_distinct(a, 5);
    assert forall|m: int| 0 <= m < 6 implies #[trigger] a[m] != a[6] by { if m == 0 { assert(a[0] != a[6]); } else if m == 1 { assert(a[1] != a[6]); } else if m == 2 { assert(a[2] != a[6]); } else if m == 3 { assert(a[3] != a[6]); } else if m == 4 { assert(a[4] != a[6]); } else if m == 5 { assert(a[5] != a[6]); } }
    lemma_extend_distinct(a, 6);
    assert forall|m: int| 0 <= m < 7 implies #[trigger] a[m] != a[7] by { if m == 0 { assert(a[0] != a[7]); } else if m == 1 { assert(a[1] != a[7]); } else if m == 2 { assert(a[2] != a[7]); } else if m == 3 { assert(a[3] != a[7]); } else if m == 4 { assert(a[4] != a[7]); } else if m == 5 { assert(a[5] != a[7]); } else if m == 6 { assert(a[6] != a[7]); } }
    lemma_extend_distinct(a, 7);
    assert("batch"@[0] != "first"@[0]);
    assert forall|m: int| 0 <= m < 8 implies #[trigger] a[m] != a[8] by { if m == 0 { assert(a[0] != a[8]); } else if m == 1 { assert(a[1] != a[8]); } else if m == 2 { assert(a[2] != a[8]); } else if m == 3 { assert(a[3] != a[8]); } else if m == 4 { assert(a[4] != a[8]); } else if m == 5 { assert(a[5] != a[8]); } else if m == 6 { assert(a[6] != a[8]); } else if m == 7 { assert(a[7] != a[8]); } }
    lemma_extend_distinct(a, 8);
    assert("batch"@[0] != "float"@[0]);
    assert("first"@[1] != "float"@[1]);
    assert forall|m: int| 0 <= m < 9 implies #[trigger] a[m] != a[9] by { if m == 0 { assert(a[0] != a[9]); } else if m == 1 { assert(a[1] != a[9]); } else if m == 2 { assert(a[2] != a[9]); } else if m == 3 { assert(a[3] != a[9]); } else if m == 4 { assert(a[4] != a[9]); } else if m == 5 { assert(a[5] != a[9]); } else if m == 6 { assert(a[6] != a[9]); } else if m == 7 { assert(a[7] != a[9]); } else if m == 8 { assert(a[8] != a[9]); } }
    lemma_extend_distinct(a, 9);
    assert("escape"@[0] != "indent"@[0]);
    assert forall|m: int| 0 <= m < 10 implies #[trigger] a[m] != a[10] by { if m == 0 { assert(a[0] != a[10]); } else if m == 1 { assert(a[1] != a[10]); } else if m == 2 { assert(a[2] != a[10]); } else if m == 3 { assert(a[3] != a[10]); } else if m == 4 { assert(a[4] != a[10]); } else if m == 5 { assert(a[5] != a[10]); } else if m == 6 { assert(a[6] != a[10]); } else if m == 7 { assert(a[7] != a[10]); } else if m == 8 { assert(a[8] != a[10]); } else if m == 9 { assert(a[9] != a[10]); } }
    lemma_extend_distinct(a, 10);
    assert("abs"@[0] != "int"@[0]);
    assert forall|m: int| 0 <= m < 11 implies #[trigger] a[m] != a[11] by { if m == 0 { assert(a[0] != a[11]); } else if m == 1 { assert(a[1] != a[11]); } else if m == 2 { assert(a[2] != a[11]); } else if m == 3 { assert(a[3] != a[11]); } else if m == 4 { assert(a[4] != a[11]); } else if m == 5 { assert(a[5] != a[11]); } else if m == 6 { assert(a[6] != a[11]); } else if m == 7 { assert(a[7] != a[11]); } else if m == 8 { assert(a[8] != a[11]); } else if m == 9 { assert(a[9] != a[11]); } else if m == 10 { assert(a[10] != a[11]); } }
    lemma_extend_distinct(a, 11);
    assert("batch"@[0] != "items"@[0]);
    assert("first"@[0] != "items"@[0]);
    assert("float"@[0] != "items"@[0]);
    assert forall|m: int| 0 <= m < 12 implies #[trigger] a[m] != a[12] by { if m == 0 { assert(a[0] != a[12]); } else if m == 1 { assert(a[1] != a[12]); } else if m == 2 { assert(a[2] != a[12]); } else if m == 3 { assert(a[3] != a[12]); } else if m == 4 { assert(a[4] != a[12]); } else if m == 5 { assert(a[5] != a[12]); } else if m == 6 { assert(a[6] != a[12]); } else if m == 7 { assert(a[7] != a[12]); } else if m == 8 { assert(a[8] != a[12]); } else if m == 9 { assert(a[9] != a[12]); } else if m == 10 { assert(a[10] != a[12]); } else if m == 11 { assert(a[11] != a[12]); } }
    lemma_extend_distinct(a, 12);
    assert("attr"@[0] != "join"@[0]);
    assert("bool"@[0] != "join"@[0]);
    assert forall|m: int| 0 <= m < 13 implies #[trigger] a[m] != a[13] by { if m == 0 { assert(a[0] != a[13]); } else if m == 1 { assert(a[1] != a[13]); } else if m == 2 { assert(a[2] != a[13]); } else if m == 3 { assert(a[3] != a[13]); } else if m == 4 { assert(a[4] != a[13]); } else if m == 5 { assert(a[5] != a[13]); } else if m == 6 { assert(a[6] != a[13]); } else if m == 7 { assert(a[7] != a[13]); } else if m == 8 { assert(a[8] != a[13]); } else if m == 9 { assert(a[9] != a[13]); } else if m == 10 { assert(a[10] != a[13]); } else if m == 11 { assert(a[11] != a[13]); } else if m == 12 { assert(a[12] != a[13]); } }
    lemma_extend_distinct(a, 13);
    assert("attr"@[0] != "last"@[0]);
    assert("bool"@[0] != "last"@[0]);
    assert("join"@[0] != "last"@[0]);
    assert forall|m: int| 0 <= m < 14 implies #[trigger] a[m] != a[14] by { if m == 0 { assert(a[0] != a[14]); } else if m == 1 { assert(a[1] != a[14]); } else if m == 2 { assert(a[2] != a[14]); } else if m == 3 { assert(a[3] != a[14]); } else if m == 4 { assert(a[4] != a[14]); } else if m == 5 { assert(a[5] != a[14]); } else if m == 6 { assert(a[6] != a[14]); } else if m == 7 { assert(a[7] != a[14]); } else if m == 8 { assert(a[8] != a[14]); } else if m == 9 { assert(a[9] != a[14]); } else if m == 10 { assert(a[10] != a[14]); } else if m == 11 { assert(a[11] != a[14]); } else if m == 12 { assert(a[12] != a[14]); } else if m == 13 { assert(a[13] != a[14]); } }
    lemma_extend_distinct(a, 14);
    assert("escape"@[0] != "length"@[0]);
    assert("indent"@[0] != "length"@[0]);
    assert forall|m: int| 0 <= m < 15 implies #[trigger] a[m] != a[15] by { if m == 0 { assert(a[0] != a[15]); } else if m == 1 { assert(a[1] != a[15]); } else if m == 2 { assert(a[2] != a[15]); } else if m == 3 { assert(a[3] != a[15]); } else if m == 4 { assert(a[4] != a[15]); } else if m == 5 { assert(a[5] != a[15]); } else if m == 6 { assert(a[6] != a[15]); } else if m == 7 { assert(a[7] != a[15]); } else if m == 8 { assert(a[8] != a[15]); } else if m == 9 { assert(a[9] != a[15]); } else if m == 10 { assert(a[10] != a[15]); } else if m == 11 { assert(a[11] != a[15]); } else if m == 12 { assert(a[12] != a[15]); } else if m == 13 { assert(a[13] != a[15]); } else if m == 14 { assert(a[14] != a[15]); } }
    lemma_extend_distinct(a, 15);
    assert("attr"@[0] != "list"@[0]);
    assert("bool"@[0] != "list"@[0]);
    assert("join"@[0] != "list"@[0]);
    assert("last"@[1] != "list"@[1]);
    assert forall|m: int| 0 <= m < 16 implies #[trigger] a[m] != a[16] by { if m == 0 { assert(a[0] != a[16]); } else if m == 1 { assert(a[1] != a[16]); } else if m == 2 { assert(a[2] != a[16]); } else if m == 3 { assert(a[3] != a[16]); } else if m == 4 { assert(a[4] != a[16]); } else if m == 5 { assert(a[5] != a[16]); } else if m == 6 { assert(a[6] != a[16]); } else if m == 7 { assert(a[7] != a[16]); } else if m == 8 { assert(a[8] != a[16]); } else if m == 9 { assert(a[9] != a[16]); } else if m == 10 { assert(a[10] != a[16]); } else if m == 11 { assert(a[11] != a[16]); } else if m == 12 { assert(a[12] != a[16]); } else if m == 13 { assert(a[13] != a[16]); } else if m == 14 { assert(a[14] != a[16]); } else if m == 15 { assert(a[15] != a[16]); } }
    lemma_extend_distinct(a, 16);
    assert("batch"@[0] != "lower"@[0]);
    assert("first"@[0] != "lower"@[0]);
    assert("float"@[0] != "lower"@[0]);
    assert("items"@[0] != "lower"@[0]);
    assert forall|m: int| 0 <= m < 17 implies #[trigger] a[m] != a[17] by { if m == 0 { assert(a[0] != a[17]); } else if m == 1 { assert(a[1] != a[17]); } else if m == 2 { assert(a[2] != a[17]); } else if m == 3 { assert(a[3] != a[17]); } else if m == 4 { assert(a[4] != a[17]); } else if m == 5 { assert(a[5] != a[17]); } else if m == 6 { assert(a[6] != a[17]); } else if m == 7 { assert(a[7] != a[17]); } else if m == 8 { assert(a[8] != a[17]); } else if m == 9 { assert(a[9] != a[17]); } else if m == 10 { assert(a[10] != a[17]); } else if m == 11 { assert(a[11] != a[17]); } else if m == 12 { assert(a[12] != a[17]); } else if m == 13 { assert(a[13] != a[17]); } else if m == 14 { assert(a[14] != a[17]); } else if m == 15 { assert(a[15] != a[17]); } else if m == 16 { assert(a[16] != a[17]); } }
    lemma_extend_distinct(a, 17);
    assert("abs"@[0] != "map"@[0]);
    assert("int"@[0] != "map"@[0]);
    assert forall|m: int| 0 <= m < 18 implies #[trigger] a[m] != a[18] by { if m == 0 { assert(a[0] != a[18]); } else if m == 1 { assert(a[1] != a[18]); } else if m == 2 { assert(a[2] != a[18]); } else if m == 3 { assert(a[3] != a[18]); } else if m == 4 { assert(a[4] != a[18]); } else if m == 5 { assert(a[5] != a[18]); } else if m == 6 { assert(a[6] != a[18]); } else if m == 7 { assert(a[7] != a[18]); } else if m == 8 { assert(a[8] != a[18]); } else if m == 9 { assert(a[9] != a[18]); } else if m == 10 { assert(a[10] != a[18]); } else if m == 11 { assert(a[11] != a[18]); } else if m == 12 { assert(a[12] != a[18]); } else if m == 13 { assert(a[13] != a[18]); } else if m == 14 { assert(a[14] != a[18]); } else if m == 15 { assert(a[15] != a[18]); } else if m == 16 { assert(a[16] != a[18]); } else if m == 17 { assert(a[17] != a[18]); } }
    lemma_extend_distinct(a, 18);
    assert("abs"@[0] != "max"@[0]);
    assert("int"@[0] != "max"@[0]);
    assert("map"@[2] != "max"@[2]);
    assert forall|m: int| 0 <= m < 19 implies #[trigger] a[m] != a[19] by { if m == 0 { assert(a[0] != a[19]); } else if m == 1 { assert(a[1] != a[19]); } else if m == 2 { assert(a[2] != a[19]); } else if m == 3 { assert(a[3] != a[19]); } else if m == 4 { assert(a[4] != a[19]); } else if m == 5 { assert(a[5] != a[19]); } else if m == 6 { assert(a[6] != a[19]); } else if m == 7 { assert(a[7] != a[19]); } else if m == 8 { assert(a[8] != a[19]); } else if m == 9 { assert(a[9] != a[19]); } else if m == 10 { assert(a[10] != a[19]); } else if m == 11 { assert(a[11] != a[19]); } else if m == 12 { assert(a[12] != a[19]); } else if m == 13 { assert(a[13] != a[19]); } else if m == 14 { assert(a[14] != a[19]); } else if m == 15 { assert(a[15] != a[19]); } else if m == 16 { assert(a[16] != a[19]); } else if m == 17 { assert(a[17] != a[19]); } else if m == 18 { assert(a[18] != a[19]); } }
    lemma_extend_distinct(a, 19);
    assert("abs"@[0] != "min"@[0]);
    assert("int"@[0] != "min"@[0]);
    assert("map"@[1] != "min"@[1]);
    assert("max"@[1] != "min"@[1]);
    assert forall|m: int| 0 <= m < 20 implies #[trigger] a[m] != a[20] by { if m == 0 { assert(a[0] != a[20]); } else if m == 1 { assert(a[1] != a[20]); } else if m == 2 { assert(a[2] != a[20]); } else if m == 3 { assert(a[3] != a[20]); } else if m == 4 { assert(a[4] != a[20]); } else if m == 5 { assert(a[5] != a[20]); } else if m == 6 { assert(a[6] != a[20]); } else if m == 7 { assert(a[7] != a[20]); } else if m == 8 { assert(a[8] != a[20]); } else if m == 9 { assert(a[9] != a[20]); } else if m == 10 { assert(a[10] != a[20]); } else if m == 11 { assert(a[11] != a[20]); } else if m == 12 { assert(a[12] != a[20]); } else if m == 13 { assert(a[13] != a[20]); } else if m == 14 { assert(a[14] != a[20]); } else if m == 15 { assert(a[15] != a[20]); } else if m == 16 { assert(a[16] != a[20]); } else if m == 17 { assert(a[17] != a[20]); } else if m == 18 { assert(a[18] != a[20]); } else if m == 19 { assert(a[19] != a[20]); } }
    lemma_extend_distinct(a, 20);
    assert("escape"@[0] != "pprint"@[0]);
    assert("indent"@[0] != "pprint"@[0]);
    assert("length"@[0] != "pprint"@[0]);
    assert forall|m: int| 0 <= m < 21 implies #[trigger] a[m] != a[21] by { if m == 0 { assert(a[0] != a[21]); } else if m == 1 { assert(a[1] != a[21]); } else if m == 2 { assert(a[2] != a[21]); } else if m == 3 { assert(a[3] != a[21]); } else if m == 4 { assert(a[4] != a[21]); } else if m == 5 { assert(a[5] != a[21]); } else if m == 6 { assert(a[6] != a[21]); } else if m == 7 { assert(a[7] != a[21]); } else if m == 8 { assert(a[8] != a[21]); } else if m == 9 { assert(a[9] != a[21]); } else if m == 10 { assert(a[10] != a[21]); } else if m == 11 { assert(a[11] != a[21]); } else if m == 12 { assert(a[12] != a[21]); } else if m == 13 { assert(a[13] != a[21]); } else if m == 14 { assert(a[14] != a[21]); } else if m == 15 { assert(a[15] != a[21]); } else if m == 16 { assert(a[16] != a[21]); } else if m == 17 { assert(a[17] != a[21]); } else if m == 18 { assert(a[18] != a[21]); } else if m == 19 { assert(a[19] != a[21]); } else if m == 20 { assert(a[20] != a[21]); } }
    lemma_extend_distinct(a, 21);
    assert("capitalize"@[0] != "rejectattr"@[0]);
    assert forall|m: int| 0 <= m < 22 implies #[trigger] a[m] != a[22] by { if m == 0 { assert(a[0] != a[22]); } else if m == 1 { assert(a[1] != a[22]); } else if m == 2 { assert(a[2] != a[22]); } else if m == 3 { assert(a[3] != a[22]); } else if m == 4 { assert(a[4] != a[22]); } else if m == 5 { assert(a[5] != a[22]); } else if m == 6 { assert(a[6] != a[22]); } else if m == 7 { assert(a[7] != a[22]); } else if m == 8 { assert(a[8] != a[22]); } else if m == 9 { assert(a[9] != a[22]); } else if m == 10 { assert(a[10] != a[22]); } else if m == 11 { assert(a[11] != a[22]); } else if m == 12 { assert(a[12] != a[22]); } else if m == 13 { assert(a[13] != a[22]); } else if m == 14 { assert(a[14] != a[22]); } else if m == 15 { assert(a[15] != a[22]); } else if m == 16 { assert(a[16] != a[22]); } else if m == 17 { assert(a[17] != a[22]); } else if m == 18 { assert(a[18] != a[22]); } else if m == 19 { assert(a[19] != a[22]); } else if m == 20 { assert(a[20] != a[22]); } else if m == 21 { assert(a[21] != a[22]); } }
    lemma_extend_distinct(a, 22);
    assert("escape"@[0] != "reject"@[0]);
    assert("indent"@[0] != "reject"@[0]);
    assert("length"@[0] != "reject"@[0]);
    assert("pprint"@[0] != "reject"@[0]);
    assert forall|m: int| 0 <= m < 23 implies #[trigger] a[m] != a[23] by { if m == 0 { assert(a[0] != a[23]); } else if m == 1 { assert(a[1] != a[23]); } else if m == 2 { assert(a[2] != a[23]); } else if m == 3 { assert(a[3] != a[23]); } else if m == 4 { assert(a[4] != a[23]); } else if m == 5 { assert(a[5] != a[23]); } else if m == 6 { assert(a[6] != a[23]); } else if m == 7 { assert(a[7] != a[23]); } else if m == 8 { assert(a[8] != a[23]); } else if m == 9 { assert(a[9] != a[23]); } else if m == 10 { assert(a[10] != a[23]); } else if m == 11 { assert(a[11] != a[23]); } else if m == 12 { assert(a[12] != a[23]); } else if m == 13 { assert(a[13] != a[23]); } else if m == 14 { assert(a[14] != a[23]); } else if m == 15 { assert(a[15] != a[23]); } else if m == 16 { assert(a[16] != a[23]); } else if m == 17 { assert(a[17] != a[23]); } else if m == 18 { assert(a[18] != a[23]); } else if m == 19 { assert(a[19] != a[23]); } else if m == 20 { assert(a[20] != a[23]); } else if m == 21 { assert(a[21] != a[23]); } else if m == 22 { assert(a[22] != a[23]); } }
    lemma_extend_distinct(a, 23);
    assert("default"@[0] != "replace"@[0]);
    assert forall|m: int| 0 <= m < 24 implies #[trigger] a[m] != a[24] by { if m == 0 { assert(a[0] != a[24]); } else if m == 1 { assert(a[1] != a[24]); } else if m == 2 { assert(a[2] != a[24]); } else if m == 3 { assert(a[3] != a[24]); } else if m == 4 { assert(a[4] != a[24]); } else if m == 5 { assert(a[5] != a[24]); } else if m == 6 { assert(a[6] != a[24]); } else if m == 7 { assert(a[7] != a[24]); } else if m == 8 { assert(a[8] != a[24]); } else if m == 9 { assert(a[9] != a[24]); } else if m == 10 { assert(a[10] != a[24]); } else if m == 11 { assert(a[11] != a[24]); } else if m == 12 { assert(a[12] != a[24]); } else if m == 13 { assert(a[13] != a[24]); } else if m == 14 { assert(a[14] != a[24]); } else if m == 15 { assert(a[15] != a[24]); } else if m == 16 { assert(a[16] != a[24]); } else if m == 17 { assert(a[17] != a[24]); } else if m == 18 { assert(a[18] != a[24]); } else if m == 19 { assert(a[19] != a[24]); } else if m == 20 { assert(a[20] != a[24]); } else if m == 21 { assert(a[21] != a[24]); } else if m == 22 { assert(a[22] != a[24]); } else if m == 23 { assert(a[23] != a[24]); } }
    lemma_extend_distinct(a, 24);
    assert("default"@[0] != "reverse"@[0]);
    assert("replace"@[2] != "reverse"@[2]);
    assert forall|m: int| 0 <= m < 25 implies #[trigger] a[m] != a[25] by { if m == 0 { assert(a[0] != a[25]); } else if m == 1 { assert(a[1] != a[25]); } else if m == 2 { assert(a[2] != a[25]); } else if m == 3 { assert(a[3] != a[25]); } else if m == 4 { assert(a[4] != a[25]); } else if m == 5 { assert(a[5] != a[25]); } else if m == 6 { assert(a[6] != a[25]); } else if m == 7 { assert(a[7] != a[25]); } else if m == 8 { assert(a[8] != a[25]); } else if m == 9 { assert(a[9] != a[25]); } else if m == 10 { assert(a[10] != a[25]); } else if m == 11 { assert(a[11] != a[25]); } else if m == 12 { assert(a[12] != a[25]); } else if m == 13 { assert(a[13] != a[25]); } else if m == 14 { assert(a[14] != a[25]); } else if m == 15 { assert(a[15] != a[25]); } else if m == 16 { assert(a[16] != a[25]); } else if m == 17 { assert(a[17] != a[25]); } else if m == 18 { assert(a[18] != a[25]); } else if m == 19 { assert(a[19] != a[25]); } else if m == 20 { assert(a[20] != a[25]); } else if m == 21 { assert(a[21] != a[25]); } else if m == 22 { assert(a[22] != a[25]); } else if m == 23 { assert(a[23] != a[25]); } else if m == 24 { assert(a[24] != a[25]); } }
    lemma_extend_distinct(a, 25);
    assert("batch"@[0] != "round"@[0]);
    assert("first"@[0] != "round"@[0]);
    assert("float"@[0] != "round"@[0]);
    assert("items"@[0] != "round"@[0]);
    assert("lower"@[0] != "round"@[0]);
    assert forall|m: int| 0 <= m < 26 implies #[trigger] a[m] != a[26] by { if m == 0 { assert(a[0] != a[26]); } else if m == 1 { assert(a[1] != a[26]); } else if m == 2 { assert(a[2] != a[26]); } else if m == 3 { assert(a[3] != a[26]); } else if m == 4 { assert(a[4] != a[26]); } else if m == 5 { assert(a[5] != a[26]); } else if m == 6 { assert(a[6] != a[26]); } else if m == 7 { assert(a[7] != a[26]); } else if m == 8 { assert(a[8] != a[26]); } else if m == 9 { assert(a[9] != a[26]); } else if m == 10 { assert(a[10] != a[26]); } else if m == 11 { assert(a[11] != a[26]); } else if m == 12 { assert(a[12] != a[26]); } else if m == 13 { assert(a[13] != a[26]); } else if m == 14 { assert(a[14] != a[26]); } else if m == 15 { assert(a[15] != a[26]); } else if m == 16 { assert(a[16] != a[26]); } else if m == 17 { assert(a[17] != a[26]); } else if m == 18 { assert(a[18] != a[26]); } else if m == 19 { assert(a[19] != a[26]); } else if m == 20 { assert(a[20] != a[26]); } else if m == 21 { assert(a[21] != a[26]); } else if m == 22 { assert(a[22] != a[26]); } else if m == 23 { assert(a[23] != a[26]); } else if m == 24 { assert(a[24] != a[26]); } else if m == 25 { assert(a[25] != a[26]); } }
    lemma_extend_distinct(a, 26);
    assert("attr"@[0] != "safe"@[0]);
    assert("bool"@[0] != "safe"@[0]);
    assert("join"@[0] != "safe"@[0]);
    assert("last"@[0] != "safe"@[0]);
    assert("list"@[0] != "safe"@[0]);
    assert forall|m: int| 0 <= m < 27 implies #[trigger] a[m] != a[27] by { if m == 0 { assert(a[0] != a[27]); } else if m == 1 { assert(a[1] != a[27]); } else if m == 2 { assert(a[2] != a[27]); } else if m == 3 { assert(a[3] != a[27]); } else if m == 4 { assert(a[4] != a[27]); } else if m == 5 { assert(a[5] != a[27]); } else if m == 6 { assert(a[6] != a[27]); } else if m == 7 { assert(a[7] != a[27]); } else if m == 8 { assert(a[8] != a[27]); } else if m == 9 { assert(a[9] != a[27]); } else if m == 10 { assert(a[10] != a[27]); } else if m == 11 { assert(a[11] != a[27]); } else if m == 12 { assert(a[12] != a[27]); } else if m == 13 { assert(a[13] != a[27]); } else if m == 14 { assert(a[14] != a[27]); } else if m == 15 { assert(a[15] != a[27]); } else if m == 16 { assert(a[16] != a[27]); } else if m == 17 { assert(a[17] != a[27]); } else if m == 18 { assert(a[18] != a[27]); } else if m == 19 { assert(a[19] != a[27]); } else if m == 20 { assert(a[20] != a[27]); } else if m == 21 { assert(a[21] != a[27]); } else if m == 22 { assert(a[22] != a[27]); } else if m == 23 { assert(a[23] != a[27]); } else if m == 24 { assert(a[24] != a[27]); } else if m == 25 { assert(a[25] != a[27]); } else if m == 26 { assert(a[26] != a[27]); } }
    lemma_extend_distinct(a, 27);
    assert("capitalize"@[0] != "selectattr"@[0]);
    assert("rejectattr"@[0] != "selectattr"@[0]);
    assert forall|m: int| 0 <= m < 28 implies #[trigger] a[m] != a[28] by { if m == 0 { assert(a[0] != a[28]); } else if m == 1 { assert(a[1] != a[28]); } else if m == 2 { assert(a[2] != a[28]); } else if m == 3 { assert(a[3] != a[28]); } else if m == 4 { assert(a[4] != a[28]); } else if m == 5 { assert(a[5] != a[28]); } else if m == 6 { assert(a[6] != a[28]); } else if m == 7 { assert(a[7] != a[28]); } else if m == 8 { assert(a[8] != a[28]); } else if m == 9 { assert(a[9] != a[28]); } else if m == 10 { assert(a[10] != a[28]); } else if m == 11 { assert(a[11] != a[28]); } else if m == 12 { assert(a[12] != a[28]); } else if m == 13 { assert(a[13] != a[28]); } else if m == 14 { assert(a[14] != a[28]); } else if m == 15 { assert(a[15] != a[28]); } else if m == 16 { assert(a[16] != a[28]); } else if m == 17 { assert(a[17] != a[28]); } else if m == 18 { assert(a[18] != a[28]); } else if m == 19 { assert(a[19] != a[28]); } else if m == 20 { assert(a[20] != a[28]); } else if m == 21 { assert(a[21] != a[28]); } else if m == 22 { assert(a[22] != a[28]); } else if m == 23 { assert(a[23] != a[28]); } else if m == 24 { assert(a[24] != a[28]); } else if m == 25 { assert(a[25] != a[28]); } else if m == 26 { assert(a[26] != a[28]); } else if m == 27 { assert(a[27] != a[28]); } }
    lemma_extend_distinct(a, 28);
    assert("escape"@[0] != "select"@[0]);
    assert("indent"@[0] != "select"@[0]);
    assert("length"@[0] != "select"@[0]);
    assert("pprint"@[0] != "select"@[0]);
    assert("reject"@[0] != "select"@[0]);
    assert forall|m: int| 0 <= m < 29 implies #[trigger] a[m] != a[29] by { if m == 0 { assert(a[0] != a[29]); } else if m == 1 { assert(a[1] != a[29]); } else if m == 2 { assert(a[2] != a[29]); } else if m == 3 { assert(a[3] != a[29]); } else if m == 4 { assert(a[4] != a[29]); } else if m == 5 { assert(a[5] != a[29]); } else if m == 6 { assert(a[6] != a[29]); } else if m == 7 { assert(a[7] != a[29]); } else if m == 8 { assert(a[8] != a[29]); } else if m == 9 { assert(a[9] != a[29]); } else if m == 10 { assert(a[10] != a[29]); } else if m == 11 { assert(a[11] != a[29]); } else if m == 12 { assert(a[12] != a[29]); } else if m == 13 { assert(a[13] != a[29]); } else if m == 14 { assert(a[14] != a[29]); } else if m == 15 { assert(a[15] != a[29]); } else if m == 16 { assert(a[16] != a[29]); } else if m == 17 { assert(a[17] != a[29]); } else if m == 18 { assert(a[18] != a[29]); } else if m == 19 { assert(a[19] != a[29]); } else if m == 20 { assert(a[20] != a[29]); } else if m == 21 { assert(a[21] != a[29]); } else if m == 22 { assert(a[22] != a[29]); } else if m == 23 { assert(a[23] != a[29]); } else if m == 24 { assert(a[24] != a[29]); } else if m == 25 { assert(a[25] != a[29]); } else if m == 26 { assert(a[26] != a[29]); } else if m == 27 { assert(a[27] != a[29]); } else if m == 28 { assert(a[28] != a[29]); } }
    lemma_extend_distinct(a, 29);
    assert("batch"@[0] != "slice"@[0]);
    assert("first"@[0] != "slice"@[0]);
    assert("float"@[0] != "slice"@[0]);
    assert("items"@[0] != "slice"@[0]);
    assert("lower"@[0] != "slice"@[0]);
    assert("round"@[0] != "slice"@[0]);
    assert forall|m: int| 0 <= m < 30 implies #[trigger] a[m] != a[30] by { if m == 0 { assert(a[0] != a[30]); } else if m == 1 { assert(a[1] != a[30]); } else if m == 2 { assert(a[2] != a[30]); } else if m == 3 { assert(a[3] != a[30]); } else if m == 4 { assert(a[4] != a[30]); } else if m == 5 { assert(a[5] != a[30]); } else if m == 6 { assert(a[6] != a[30]); } else if m == 7 { assert(a[7] != a[30]); } else if m == 8 { assert(a[8] != a[30]); } else if m == 9 { assert(a[9] != a[30]); } else if m == 10 { assert(a[10] != a[30]); } else if m == 11 { assert(a[11] != a[30]); } else if m == 12 { assert(a[12] != a[30]); } else if m == 13 { assert(a[13] != a[30]); } else if m == 14 { assert(a[14] != a[30]); } else if m == 15 { assert(a[15] != a[30]); } else if m == 16 { assert(a[16] != a[30]); } else if m == 17 { assert(a[17] != a[30]); } else if m == 18 { assert(a[18] != a[30]); } else if m == 19 { assert(a[19] != a[30]); } else if m == 20 { assert(a[20] != a[30]); } else if m == 21 { assert(a[21] != a[30]); } else if m == 22 { assert(a[22] != a[30]); } else if m == 23 { assert(a[23] != a[30]); } else if m == 24 { assert(a[24] != a[30]); } else if m == 25 { assert(a[25] != a[30]); } else if m == 26 { assert(a[26] != a[30]); } else if m == 27 { assert(a[27] != a[30]); } else if m == 28 { assert(a[28] != a[30]); } else if m == 29 { assert(a[29] != a[30]); } }
    lemma_extend_distinct(a, 30);
    assert("attr"@[0] != "sort"@[0]);
    assert("bool"@[0] != "sort"@[0]);
    assert("join"@[0] != "sort"@[0]);
    assert("last"@[0] != "sort"@[0]);
    assert("list"@[0] != "sort"@[0]);
    assert("safe"@[1] != "sort"@[1]);
    assert forall|m: int| 0 <= m < 31 implies #[trigger] a[m] != a[31] by { if m == 0 { assert(a[0] != a[31]); } else if m == 1 { assert(a[1] != a[31]); } else if m == 2 { assert(a[2] != a[31]); } else if m == 3 { assert(a[3] != a[31]); } else if m == 4 { assert(a[4] != a[31]); } else if m == 5 { assert(a[5] != a[31]); } else if m == 6 { assert(a[6] != a[31]); } else if m == 7 { assert(a[7] != a[31]); } else if m == 8 { assert(a[8] != a[31]); } else if m == 9 { assert(a[9] != a[31]); } else if m == 10 { assert(a[10] != a[31]); } else if m == 11 { assert(a[11] != a[31]); } else if m == 12 { assert(a[12] != a[31]); } else if m == 13 { assert(a[13] != a[31]); } else if m == 14 { assert(a[14] != a[31]); } else if m == 15 { assert(a[15] != a[31]); } else if m == 16 { assert(a[16] != a[31]); } else if m == 17 { assert(a[17] != a[31]); } else if m == 18 { assert(a[18] != a[31]); } else if m == 19 { assert(a[19] != a[31]); } else if m == 20 { assert(a[20] != a[31]); } else if m == 21 { assert(a[21] != a[31]); } else if m == 22 { assert(a[22] != a[31]); } else if m == 23 { assert(a[23] != a[31]); } else if m == 24 { assert(a[24] != a[31]); } else if m == 25 { assert(a[25] != a[31]); } else if m == 26 { assert(a[26] != a[31]); } else if m == 27 { assert(a[27] != a[31]); } else if m == 28 { assert(a[28] != a[31]); } else if m == 29 { assert(a[29] != a[31]); } else if m == 30 { assert(a[30] != a[31]); } }
    lemma_extend_distinct(a, 31);
    assert("batch"@[0] != "title"@[0]);
    assert("first"@[0] != "title"@[0]);
    assert("float"@[0] != "title"@[0]);
    assert("items"@[0] != "title"@[0]);
    assert("lower"@[0] != "title"@[0]);
    assert("round"@[0] != "title"@[0]);
    assert("slice"@[0] != "title"@[0]);
    assert forall|m: int| 0 <= m < 32 implies #[trigger] a[m] != a[32] by { if m == 0 { assert(a[0] != a[32]); } else if m == 1 { assert(a[1] != a[32]); } else if m == 2 { assert(a[2] != a[32]); } else if m == 3 { assert(a[3] != a[32]); } else if m == 4 { assert(a[4] != a[32]); } else if m == 5 { assert(a[5] != a[32]); } else if m == 6 { assert(a[6] != a[32]); } else if m == 7 { assert(a[7] != a[32]); } else if m == 8 { assert(a[8] != a[32]); } else if m == 9 { assert(a[9] != a[32]); } else if m == 10 { assert(a[10] != a[32]); } else if m == 11 { assert(a[11] != a[32]); } else if m == 12 { assert(a[12] != a[32]); } else if m == 13 { assert(a[13] != a[32]); } else if m == 14 { assert(a[14] != a[32]); } else if m == 15 { assert(a[15] != a[32]); } else if m == 16 { assert(a[16] != a[32]); } else if m == 17 { assert(a[17] != a[32]); } else if m == 18 { assert(a[18] != a[32]); } else if m == 19 { assert(a[19] != a[32]); } else if m == 20 { assert(a[20] != a[32]); } else if m == 21 { assert(a[21] != a[32]); } else if m == 22 { assert(a[22] != a[32]); } else if m == 23 { assert(a[23] != a[32]); } else if m == 24 { assert(a[24] != a[32]); } else if m == 25 { assert(a[25] != a[32]); } else if m == 26 { assert(a[26] != a[32]); } else if m == 27 { assert(a[27] != a[32]); } else if m == 28 { assert(a[28] != a[32]); } else if m == 29 { assert(a[29] != a[32]); } else if m == 30 { assert(a[30] != a[32]); } else if m == 31 { assert(a[31] != a[32]); } }
    lemma_extend_distinct(a, 32);
    assert("escape"@[0] != "tojson"@[0]);
    assert("indent"@[0] != "tojson"@[0]);
    assert("length"@[0] != "tojson"@[0]);
    assert("pprint"@[0] != "tojson"@[0]);
    assert("reject"@[0] != "tojson"@[0]);
    assert("select"@[0] != "tojson"@[0]);
    assert forall|m: int| 0 <= m < 33 implies #[trigger] a[m] != a[33] by { if m == 0 { assert(a[0] != a[33]); } else if m == 1 { assert(a[1] != a[33]); } else if m == 2 { assert(a[2] != a[33]); } else if m == 3 { assert(a[3] != a[33]); } else if m == 4 { assert(a[4] != a[33]); } else if m == 5 { assert(a[5] != a[33]); } else if m == 6 { assert(a[6] != a[33]); } else if m == 7 { assert(a[7] != a[33]); } else if m == 8 { assert(a[8] != a[33]); } else if m == 9 { assert(a[9] != a[33]); } else if m == 10 { assert(a[10] != a[33]); } else if m == 11 { assert(a[11] != a[33]); } else if m == 12 { assert(a[12] != a[33]); } else if m == 13 { assert(a[13] != a[33]); } else if m == 14 { assert(a[14] != a[33]); } else if m == 15 { assert(a[15] != a[33]); } else if m == 16 { assert(a[16] != a[33]); } else if m == 17 { assert(a[17] != a[33]); } else if m == 18 { assert(a[18] != a[33]); } else if m == 19 { assert(a[19] != a[33]); } else if m == 20 { assert(a[20] != a[33]); } else if m == 21 { assert(a[21] != a[33]); } else if m == 22 { assert(a[22] != a[33]); } else if m == 23 { assert(a[23] != a[33]); } else if m == 24 { assert(a[24] != a[33]); } else if m == 25 { assert(a[25] != a[33]); } else if m == 26 { assert(a[26] != a[33]); } else if m == 27 { assert(a[27] != a[33]); } else if m == 28 { assert(a[28] != a[33]); } else if m == 29 { assert(a[29] != a[33]); } else if m == 30 { assert(a[30] != a[33]); } else if m == 31 { assert(a[31] != a[33]); } else if m == 32 { assert(a[32] != a[33]); } }
    lemma_extend_distinct(a, 33);
    assert("attr"@[0] != "trim"@[0]);
    assert("bool"@[0] != "trim"@[0]);
    assert("join"@[0] != "trim"@[0]);
    assert("last"@[0] != "trim"@[0]);
    assert("list"@[0] != "trim"@[0]);
    assert("safe"@[0] != "trim"@[0]);
    assert("sort"@[0] != "trim"@[0]);
    assert forall|m: int| 0 <= m < 34 implies #[trigger] a[m] != a[34] by { if m == 0 { assert(a[0] != a[34]); } else if m == 1 { assert(a[1] != a[34]); } else if m == 2 { assert(a[2] != a[34]); } else if m == 3 { assert(a[3] != a[34]); } else if m == 4 { assert(a[4] != a[34]); } else if m == 5 { assert(a[5] != a[34]); } else if m == 6 { assert(a[6] != a[34]); } else if m == 7 { assert(a[7] != a[34]); } else if m == 8 { assert(a[8] != a[34]); } else if m == 9 { assert(a[9] != a[34]); } else if m == 10 { assert(a[10] != a[34]); } else if m == 11 { assert(a[11] != a[34]); } else if m == 12 { assert(a[12] != a[34]); } else if m == 13 { assert(a[13] != a[34]); } else if m == 14 { assert(a[14] != a[34]); } else if m == 15 { assert(a[15] != a[34]); } else if m == 16 { assert(a[16] != a[34]); } else if m == 17 { assert(a[17] != a[34]); } else if m == 18 { assert(a[18] != a[34]); } else if m == 19 { assert(a[19] != a[34]); } else if m == 20 { assert(a[20] != a[34]); } else if m == 21 { assert(a[21] != a[34]); } else if m == 22 { assert(a[22] != a[34]); } else if m == 23 { assert(a[23] != a[34]); } else if m == 24 { assert(a[24] != a[34]); } else if m == 25 { assert(a[25] != a[34]); } else if m == 26 { assert(a[26] != a[34]); } else if m == 27 { assert(a[27] != a[34]); } else if m == 28 { assert(a[28] != a[34]); } else if m == 29 { assert(a[29] != a[34]); } else if m == 30 { assert(a[30] != a[34]); } else if m == 31 { assert(a[31] != a[34]); } else if m == 32 { assert(a[32] != a[34]); } else if m == 33 { assert(a[33] != a[34]); } }
    lemma_extend_distinct(a, 34);
    assert("escape"@[0] != "unique"@[0]);
    assert("indent"@[0] != "unique"@[0]);
    assert("length"@[0] != "unique"@[0]);
    assert("pprint"@[0] != "unique"@[0]);
    assert("reject"@[0] != "unique"@[0]);
    assert("select"@[0] != "unique"@[0]);
    assert("tojson"@[0] != "unique"@[0]);
    assert forall|m: int| 0 <= m < 35 implies #[trigger] a[m] != a[35] by { if m == 0 { assert(a[0] != a[35]); } else if m == 1 { assert(a[1] != a[35]); } else if m == 2 { assert(a[2] != a[35]); } else if m == 3 { assert(a[3] != a[35]); } else if m == 4 { assert(a[4] != a[35]); } else if m == 5 { assert(a[5] != a[35]); } else if m == 6 { assert(a[6] != a[35]); } else if m == 7 { assert(a[7] != a[35]); } else if m == 8 { assert(a[8] != a[35]); } else if m == 9 { assert(a[9] != a[35]); } else if m == 10 { assert(a[10] != a[35]); } else if m == 11 { assert(a[11] != a[35]); } else if m == 12 { assert(a[12] != a[35]); } else if m == 13 { assert(a[13] != a[35]); } else if m == 14 { assert(a[14] != a[35]); } else if m == 15 { assert(a[15] != a[35]); } else if m == 16 { assert(a[16] != a[35]); } else if m == 17 { assert(a[17] != a[35]); } else if m == 18 { assert(a[18] != a[35]); } else if m == 19 { assert(a[19] != a[35]); } else if m == 20 { assert(a[20] != a[35]); } else if m == 21 { assert(a[21] != a[35]); } else if m == 22 { assert(a[22] != a[35]); } else if m == 23 { assert(a[23] != a[35]); } else if m == 24 { assert(a[24] != a[35]); } else if m == 25 { assert(a[25] != a[35]); } else if m == 26 { assert(a[26] != a[35]); } else if m == 27 { assert(a[27] != a[35]); } else if m == 28 { assert(a[28] != a[35]); } else if m == 29 { assert(a[29] != a[35]); } else if m == 30 { assert(a[30] != a[35]); } else if m == 31 { assert(a[31] != a[35]); } else if m == 32 { assert(a[32] != a[35]); } else if m == 33 { assert(a[33] != a[35]); } else if m == 34 { assert(a[34] != a[35]); } }
    lemma_extend_distinct(a, 35);
    assert("batch"@[0] != "upper"@[0]);
    assert("first"@[0] != "upper"@[0]);
    assert("float"@[0] != "upper"@[0]);
    assert("items"@[0] != "upper"@[0]);
    assert("lower"@[0] != "upper"@[0]);
    assert("round"@[0] != "upper"@[0]);
    assert("slice"@[0] != "upper"@[0]);
    assert("title"@[0] != "upper"@[0]);
    assert forall|m: int| 0 <= m < 36 implies #[trigger] a[m] != a[36] by { if m == 0 { assert(a[0] != a[36]); } else if m == 1 { assert(a[1] != a[36]); } else if m == 2 { assert(a[2] != a[36]); } else if m == 3 { assert(a[3] != a[36]); } else if m == 4 { assert(a[4] != a[36]); } else if m == 5 { assert(a[5] != a[36]); } else if m == 6 { assert(a[6] != a[36]); } else if m == 7 { assert(a[7] != a[36]); } else if m == 8 { assert(a[8] != a[36]); } else if m == 9 { assert(a[9] != a[36]); } else if m == 10 { assert(a[10] != a[36]); } else if m == 11 { assert(a[11] != a[36]); } else if m == 12 { assert(a[12] != a[36]); } else if m == 13 { assert(a[13] != a[36]); } else if m == 14 { assert(a[14] != a[36]); } else if m == 15 { assert(a[15] != a[36]); } else if m == 16 { assert(a[16] != a[36]); } else if m == 17 { assert(a[17] != a[36]); } else if m == 18 { assert(a[18] != a[36]); } else if m == 19 { assert(a[19] != a[36]); } else if m == 20 { assert(a[20] != a[36]); } else if m == 21 { assert(a[21] != a[36]); } else if m == 22 { assert(a[22] != a[36]); } else if m == 23 { assert(a[23] != a[36]); } else if m == 24 { assert(a[24] != a[36]); } else if m == 25 { assert(a[25] != a[36]); } else if m == 26 { assert(a[26] != a[36]); } else if m == 27 { assert(a[27] != a[36]); } else if m == 28 { assert(a[28] != a[36]); } else if m == 29 { assert(a[29] != a[36]); } else if m == 30 { assert(a[30] != a[36]); } else if m == 31 { assert(a[31] != a[36]); } else if m == 32 { assert(a[32] != a[36]); } else if m == 33 { assert(a[33] != a[36]); } else if m == 34 { assert(a[34] != a[36]); } else if m == 35 { assert(a[35] != a[36]); } }
    lemma_extend_distinct(a, 36);
    assert forall|m: int| 0 <= m < 37 implies #[trigger] a[m] != a[37] by { if m == 0 { assert(a[0] != a[37]); } else if m == 1 { assert(a[1] != a[37]); } else if m == 2 { assert(a[2] != a[37]); } else if m == 3 { assert(a[3] != a[37]); } else if m == 4 { assert(a[4] != a[37]); } else if m == 5 { assert(a[5] != a[37]); } else if m == 6 { assert(a[6] != a[37]); } else if m == 7 { assert(a[7] != a[37]); } else if m == 8 { assert(a[8] != a[37]); } else if m == 9 { assert(a[9] != a[37]); } else if m == 10 { assert(a[10] != a[37]); } else if m == 11 { assert(a[11] != a[37]); } else if m == 12 { assert(a[12] != a[37]); } else if m == 13 { assert(a[13] != a[37]); } else if m == 14 { assert(a[14] != a[37]); } else if m == 15 { assert(a[15] != a[37]); } else if m == 16 { assert(a[16] != a[37]); } else if m == 17 { assert(a[17] != a[37]); } else if m == 18 { assert(a[18] != a[37]); } else if m == 19 { assert(a[19] != a[37]); } else if m == 20 { assert(a[20] != a[37]); } else if m == 21 { assert(a[21] != a[37]); } else if m == 22 { assert(a[22] != a[37]); } else if m == 23 { assert(a[23] != a[37]); } else if m == 24 { assert(a[24] != a[37]); } else if m == 25 { assert(a[25] != a[37]); } else if m == 26 { assert(a[26] != a[37]); } else if m == 27 { assert(a[27] != a[37]); } else if m == 28 { assert(a[28] != a[37]); } else if m == 29 { assert(a[29] != a[37]); } else if m == 30 { assert(a[30] != a[37]); } else if m == 31 { assert(a[31] != a[37]); } else if m == 32 { assert(a[32] != a[37]); } else if m == 33 { assert(a[33] != a[37]); } else if m == 34 { assert(a[34] != a[37]); } else if m == 35 { assert(a[35] != a[37]); } else if m == 36 { assert(a[36] != a[37]); } }
    lemma_extend_distinct(a, 37);
    assert(a.take(38) =~= a);
}

} // verus!
