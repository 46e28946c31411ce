use vstd::prelude::*;

use crate::point::Point;
use crate::search::{type_rank, IdentV, Identifier, IdentifierType};
use crate::text::chars_of;
use vstd::multiset::Multiset;

verus! {

/// Three-way comparison of integers: -1, 0 or 1.
pub open spec fn ord_int(a: int, b: int) -> int {
    if a < b {
        -1
    } else if a == b {
        0
    } else {
        1
    }
}

/// Points compared by row, then by column.
pub open spec fn ord_point(a: Point, b: Point) -> int {
    if a.row != b.row {
        ord_int(a.row as int, b.row as int)
    } else {
        ord_int(a.column as int, b.column as int)
    }
}

/// Strings compared character by character; a proper prefix comes first.
pub open spec fn ord_chars(a: Seq<char>, b: Seq<char>) -> int
    decreases a.len(),
{
    if a.len() == 0 {
        if b.len() == 0 {
            0
        } else {
            -1
        }
    } else if b.len() == 0 {
        1
    } else if a[0] != b[0] {
        ord_int(a[0] as int, b[0] as int)
    } else {
        ord_chars(a.drop_first(), b.drop_first())
    }
}

/// One named range compared with another: by name, then start, then end.
pub open spec fn ord_field(a: (Seq<char>, (Point, Point)), b: (Seq<char>, (Point, Point))) -> int {
    if ord_chars(a.0, b.0) != 0 {
        ord_chars(a.0, b.0)
    } else if ord_point(a.1.0, b.1.0) != 0 {
        ord_point(a.1.0, b.1.0)
    } else {
        ord_point(a.1.1, b.1.1)
    }
}

/// Lists of named ranges compared element by element.
pub open spec fn ord_fields(a: Seq<(Seq<char>, (Point, Point))>, b: Seq<(Seq<char>, (Point, Point))>) -> int
    decreases a.len(),
{
    if a.len() == 0 {
        if b.len() == 0 {
            0
        } else {
            -1
        }
    } else if b.len() == 0 {
        1
    } else if ord_field(a[0], b[0]) != 0 {
        ord_field(a[0], b[0])
    } else {
        ord_fields(a.drop_first(), b.drop_first())
    }
}

/// The order of identifiers: by start, end, name, scope, scope end, kind and
/// fields, in that order of precedence.
pub open spec fn ord_ident(a: IdentV, b: IdentV) -> int {
    if ord_point(a.start, b.start) != 0 {
        ord_point(a.start, b.start)
    } else if ord_point(a.end, b.end) != 0 {
        ord_point(a.end, b.end)
    } else if ord_chars(a.name, b.name) != 0 {
        ord_chars(a.name, b.name)
    } else if a.scope_ends.0 != b.scope_ends.0 {
        ord_int(a.scope_ends.0 as int, b.scope_ends.0 as int)
    } else if ord_point(a.scope_ends.1, b.scope_ends.1) != 0 {
        ord_point(a.scope_ends.1, b.scope_ends.1)
    } else if type_rank(a.identifier_type) != type_rank(b.identifier_type) {
        ord_int(type_rank(a.identifier_type), type_rank(b.identifier_type))
    } else {
        ord_fields(a.fields, b.fields)
    }
}

/// The order of texts is antisymmetric, and it ties only equal texts.
pub proof fn lemma_ord_chars(a: Seq<char>, b: Seq<char>)
    ensures
        ord_chars(a, b) == -ord_chars(b, a),
        ord_chars(a, b) == 0 <==> a == b,
        -1 <= ord_chars(a, b) <= 1,
    decreases a.len(),
{
    if a.len() > 0 && b.len() > 0 {
        lemma_ord_chars(a.drop_first(), b.drop_first());
        if a[0] == b[0] && a.drop_first() == b.drop_first() {
            assert(a == seq![a[0]] + a.drop_first());
            assert(b == seq![b[0]] + b.drop_first());
        }
        if a == b {
            assert(a.drop_first() == b.drop_first());
        }
    }
    if a.len() == 0 && b.len() == 0 {
        assert(a == b);
    }
}

/// The order of fields is antisymmetric, and it ties only equal fields.
pub proof fn lemma_ord_field(a: (Seq<char>, (Point, Point)), b: (Seq<char>, (Point, Point)))
    ensures
        ord_field(a, b) == -ord_field(b, a),
        ord_field(a, b) == 0 <==> a == b,
        -1 <= ord_field(a, b) <= 1,
{
    lemma_ord_chars(a.0, b.0);
}

/// The order of lists of fields is antisymmetric, and it ties only equal
/// lists.
pub proof fn lemma_ord_fields(a: Seq<(Seq<char>, (Point, Point))>, b: Seq<(Seq<char>, (Point, Point))>)
    ensures
        ord_fields(a, b) == -ord_fields(b, a),
        ord_fields(a, b) == 0 <==> a == b,
        -1 <= ord_fields(a, b) <= 1,
    decreases a.len(),
{
    if a.len() > 0 && b.len() > 0 {
        lemma_ord_field(a[0], b[0]);
        lemma_ord_fields(a.drop_first(), b.drop_first());
        if a[0] == b[0] && a.drop_first() == b.drop_first() {
            assert(a == seq![a[0]] + a.drop_first());
            assert(b == seq![b[0]] + b.drop_first());
        }
        if a == b {
            assert(a.drop_first() == b.drop_first());
        }
    }
    if a.len() == 0 && b.len() == 0 {
        assert(a == b);
    }
}

/// The order of identifiers is antisymmetric, and it ties only equal values.
pub proof fn lemma_ord_ident(a: IdentV, b: IdentV)
    ensures
        ord_ident(a, b) == -ord_ident(b, a),
        ord_ident(a, b) == 0 <==> a == b,
        -1 <= ord_ident(a, b) <= 1,
{
    lemma_ord_chars(a.name, b.name);
    lemma_ord_fields(a.fields, b.fields);
    if type_rank(a.identifier_type) == type_rank(b.identifier_type) {
        assert(a.identifier_type == b.identifier_type);
    }
}

/// The order of strings is transitive.
pub proof fn lemma_ord_chars_trans(a: Seq<char>, b: Seq<char>, c: Seq<char>)
    requires
        ord_chars(a, b) <= 0,
        ord_chars(b, c) <= 0,
    ensures
        ord_chars(a, c) <= 0,
    decreases a.len(),
{
    lemma_ord_chars(a, b);
    lemma_ord_chars(b, c);
    lemma_ord_chars(a, c);
    if a.len() > 0 && b.len() > 0 && c.len() > 0 && a[0] == b[0] && b[0] == c[0] {
        lemma_ord_chars_trans(a.drop_first(), b.drop_first(), c.drop_first());
    }
}

/// The order of named ranges is transitive.
pub proof fn lemma_ord_field_trans(a: (Seq<char>, (Point, Point)), b: (Seq<char>, (Point, Point)), c: (Seq<char>, (Point, Point)))
    requires
        ord_field(a, b) <= 0,
        ord_field(b, c) <= 0,
    ensures
        ord_field(a, c) <= 0,
{
    lemma_ord_chars(a.0, b.0);
    lemma_ord_chars(b.0, c.0);
    lemma_ord_chars(a.0, c.0);
    if ord_chars(a.0, b.0) <= 0 && ord_chars(b.0, c.0) <= 0 {
        lemma_ord_chars_trans(a.0, b.0, c.0);
    }
}

/// The order of lists of named ranges is transitive.
pub proof fn lemma_ord_fields_trans(
    a: Seq<(Seq<char>, (Point, Point))>,
    b: Seq<(Seq<char>, (Point, Point))>,
    c: Seq<(Seq<char>, (Point, Point))>,
)
    requires
        ord_fields(a, b) <= 0,
        ord_fields(b, c) <= 0,
    ensures
        ord_fields(a, c) <= 0,
    decreases a.len(),
{
    lemma_ord_fields(a, b);
    lemma_ord_fields(b, c);
    lemma_ord_fields(a, c);
    if a.len() > 0 && b.len() > 0 && c.len() > 0 {
        lemma_ord_field(a[0], b[0]);
        lemma_ord_field(b[0], c[0]);
        lemma_ord_field(a[0], c[0]);
        if ord_field(a[0], b[0]) <= 0 && ord_field(b[0], c[0]) <= 0 {
            lemma_ord_field_trans(a[0], b[0], c[0]);
        }
        if ord_field(a[0], b[0]) == 0 && ord_field(b[0], c[0]) == 0 {
            lemma_ord_fields_trans(a.drop_first(), b.drop_first(), c.drop_first());
        }
    }
}

/// The order of identifiers is transitive.
pub proof fn lemma_ord_ident_trans(a: IdentV, b: IdentV, c: IdentV)
    requires
        ord_ident(a, b) <= 0,
        ord_ident(b, c) <= 0,
    ensures
        ord_ident(a, c) <= 0,
{
    lemma_ord_ident(a, b);
    lemma_ord_ident(b, c);
    lemma_ord_ident(a, c);
    lemma_ord_chars(a.name, b.name);
    lemma_ord_chars(b.name, c.name);
    lemma_ord_chars(a.name, c.name);
    if ord_chars(a.name, b.name) <= 0 && ord_chars(b.name, c.name) <= 0 {
        lemma_ord_chars_trans(a.name, b.name, c.name);
    }
    lemma_ord_fields(a.fields, b.fields);
    lemma_ord_fields(b.fields, c.fields);
    if ord_fields(a.fields, b.fields) <= 0 && ord_fields(b.fields, c.fields) <= 0 {
        lemma_ord_fields_trans(a.fields, b.fields, c.fields);
    }
}

pub fn ord_usize(a: usize, b: usize) -> (r: i8)
    ensures
        r == ord_int(a as int, b as int),
{
    if a < b {
        -1
    } else if a == b {
        0
    } else {
        1
    }
}

pub fn point_order(a: &Point, b: &Point) -> (r: i8)
    ensures
        r == ord_point(*a, *b),
{
    if a.row != b.row {
        ord_usize(a.row, b.row)
    } else {
        ord_usize(a.column, b.column)
    }
}

pub fn chars_order(a: &str, b: &str) -> (r: i8)
    ensures
        r == ord_chars(a@, b@),
{
    let x = chars_of(a);
    let y = chars_of(b);
    let mut i: usize = 0;
    assert(a@.skip(0) == a@ && b@.skip(0) == b@);
    while i < x.len() && i < y.len()
        invariant
            x@ == a@,
            y@ == b@,
            i <= x.len(),
            i <= y.len(),
            ord_chars(a@, b@) == ord_chars(a@.skip(i as int), b@.skip(i as int)),
        decreases x.len() - i,
    {
        if x[i] != y[i] {
            assert(a@.skip(i as int)[0] == x@[i as int]);
            assert(b@.skip(i as int)[0] == y@[i as int]);
            let c = x[i] < y[i];
            return if c {
                -1
            } else {
                1
            };
        }
        proof {
            assert(a@.skip(i as int).drop_first() == a@.skip(i + 1));
            assert(b@.skip(i as int).drop_first() == b@.skip(i + 1));
        }
        i = i + 1;
    }
    if x.len() == y.len() {
        0
    } else if i == x.len() {
        -1
    } else {
        1
    }
}

pub fn field_order(a: &(String, (Point, Point)), b: &(String, (Point, Point))) -> (r: i8)
    ensures
        r == ord_field((a.0@, a.1), (b.0@, b.1)),
{
    let c = chars_order(a.0.as_str(), b.0.as_str());
    if c != 0 {
        return c;
    }
    let c = point_order(&a.1.0, &b.1.0);
    if c != 0 {
        return c;
    }
    point_order(&a.1.1, &b.1.1)
}

pub fn fields_order(a: &Vec<(String, (Point, Point))>, b: &Vec<(String, (Point, Point))>) -> (r: i8)
    ensures
        r == ord_fields(crate::search::fields_view(a@), crate::search::fields_view(b@)),
{
    let ghost fa = crate::search::fields_view(a@);
    let ghost fb = crate::search::fields_view(b@);
    let mut i: usize = 0;
    assert(fa.skip(0) == fa && fb.skip(0) == fb);
    while i < a.len() && i < b.len()
        invariant
            fa == crate::search::fields_view(a@),
            fb == crate::search::fields_view(b@),
            i <= a.len(),
            i <= b.len(),
            ord_fields(fa, fb) == ord_fields(fa.skip(i as int), fb.skip(i as int)),
        decreases a.len() - i,
    {
        let c = field_order(&a[i], &b[i]);
        if c != 0 {
            return c;
        }
        proof {
            assert(fa.skip(i as int).drop_first() == fa.skip(i + 1));
            assert(fb.skip(i as int).drop_first() == fb.skip(i + 1));
        }
        i = i + 1;
    }
    if a.len() == b.len() {
        0
    } else if i == a.len() {
        -1
    } else {
        1
    }
}

pub fn type_rank_of(t: IdentifierType) -> (r: u8)
    ensures
        r as int == type_rank(t),
{
    match t {
        IdentifierType::ForLoopKey => 0,
        IdentifierType::ForLoopValue => 1,
        IdentifierType::ForLoopCount => 2,
        IdentifierType::SetVariable => 3,
        IdentifierType::WithVariable => 4,
        IdentifierType::MacroName => 5,
        IdentifierType::MacroParameter => 6,
        IdentifierType::TemplateBlock => 7,
        IdentifierType::BackendVariable => 8,
        IdentifierType::UndefinedVariable => 9,
        IdentifierType::JinjaTemplate => 10,
    }
}

/// Compares two identifiers in the order `ord_ident` defines.
pub fn ident_order(a: &Identifier, b: &Identifier) -> (r: i8)
    ensures
        r == ord_ident(a@, b@),
{
    let c = point_order(&a.start, &b.start);
    if c != 0 {
        return c;
    }
    let c = point_order(&a.end, &b.end);
    if c != 0 {
        return c;
    }
    let c = chars_order(a.name.as_str(), b.name.as_str());
    if c != 0 {
        return c;
    }
    if a.scope_ends.0 != b.scope_ends.0 {
        return ord_usize(a.scope_ends.0, b.scope_ends.0);
    }
    let c = point_order(&a.scope_ends.1, &b.scope_ends.1);
    if c != 0 {
        return c;
    }
    let ra = type_rank_of(a.identifier_type);
    let rb = type_rank_of(b.identifier_type);
    if ra != rb {
        return ord_usize(ra as usize, rb as usize);
    }
    fields_order(&a.fields, &b.fields)
}

/// The plain values of a list of identifiers.
pub open spec fn idents_view(s: Seq<Identifier>) -> Seq<IdentV> {
    s.map_values(|x: Identifier| x@)
}

/// Each identifier is no greater than the next one.
pub open spec fn sorted_idents(s: Seq<IdentV>) -> bool {
    forall|i: int| 0 <= i < s.len() - 1 ==> ord_ident(#[trigger] s[i], s[i + 1]) <= 0
}

/// Sorts identifiers in the order `ord_ident` defines.
pub fn sort_identifiers(v: Vec<Identifier>) -> (r: Vec<Identifier>)
    ensures
        sorted_idents(idents_view(r@)),
        idents_view(r@).to_multiset() == idents_view(v@).to_multiset(),
{
    let ghost orig = idents_view(v@);
    let mut src = v;
    let mut r: Vec<Identifier> = Vec::new();
    proof {
        broadcast use vstd::seq_lib::group_seq_properties;
        assert(idents_view(r@) =~= Seq::<IdentV>::empty());
    }
    while src.len() > 0
        invariant
            sorted_idents(idents_view(r@)),
            idents_view(r@).to_multiset().add(idents_view(src@).to_multiset()) == orig.to_multiset(),
        decreases src.len(),
    {
        let ghost before_src = src@;
        let x = src.pop().unwrap();
        proof {
            broadcast use vstd::seq_lib::group_seq_properties;
            assert(idents_view(before_src) =~= idents_view(src@).push(x@));
        }
        let mut p: usize = 0;
        while p < r.len() && ident_order(&r[p], &x) <= 0
            invariant
                p <= r.len(),
                forall|q: int| 0 <= q < p ==> ord_ident(#[trigger] r@[q]@, x@) <= 0,
            decreases r.len() - p,
        {
            p = p + 1;
        }
        let ghost before = idents_view(r@);
        r.insert(p, x);
        proof {
            broadcast use vstd::seq_lib::group_seq_properties;
            let after = idents_view(r@);
            assert(after =~= before.insert(p as int, x@));
            before.insert_ensures(p as int, x@);
            assert forall|i: int| 0 <= i < after.len() - 1 implies ord_ident(#[trigger] after[i], after[i + 1]) <= 0 by {
                if i + 1 < p {
                    assert(after[i] == before[i] && after[i + 1] == before[i + 1]);
                } else if i + 1 == p {
                    assert(after[i] == r@[i]@);
                } else if i == p {
                    lemma_ord_ident(before[i], x@);
                } else {
                    assert(after[i] == before[i - 1] && after[i + 1] == before[i]);
                }
            }
            assert(after.remove(p as int) =~= before);
            assert(after.to_multiset() =~= before.to_multiset().insert(x@)) by {
                assert(after.remove(p as int).to_multiset() =~= after.to_multiset().remove(after[p as int]));
                assert(after.contains(x@));
            }
        }
    }
    proof {
        assert(idents_view(src@) =~= Seq::<IdentV>::empty());
        assert(idents_view(src@).to_multiset() =~= Multiset::empty());
        assert(idents_view(r@).to_multiset().add(Multiset::empty()) =~= idents_view(r@).to_multiset());
    }
    r
}

} // verus!
