use vstd::prelude::*;

verus! {

/// The UTF-8 encoding of a sequence of characters.
pub open spec fn utf8_bytes(s: Seq<char>) -> Seq<u8> {
    vstd::utf8::encode_utf8(s)
}

/// Calls `String::push`: appends one character.
#[verifier::external_body]
pub(crate) fn push_char(s: &mut String, c: char)
    ensures
        final(s)@ == old(s)@.push(c),
{
    s.push(c);
}

/// Calls `str::chars` and collects the characters of `s` in order.
#[verifier::external_body]
pub(crate) fn chars_of(s: &str) -> (v: Vec<char>)
    ensures
        v@ == s@,
{
    s.chars().collect()
}

/// Builds a `String` from a sequence of characters.
pub fn string_from_chars(cs: &Vec<char>) -> (s: String)
    ensures
        s@ == cs@,
{
    let mut s = String::new();
    let mut i: usize = 0;
    while i < cs.len()
        invariant
            i <= cs.len(),
            s@ == cs@.take(i as int),
        decreases cs.len() - i,
    {
        push_char(&mut s, cs[i]);
        i = i + 1;
        assert(cs@.take(i as int) == cs@.take((i - 1) as int).push(cs@[i - 1]));
    }
    assert(cs@.take(cs.len() as int) == cs@);
    s
}

/// A copy of a string.
pub fn copy_str(s: &str) -> (r: String)
    ensures
        r@ == s@,
{
    s.to_owned()
}

/// Whether two strings hold the same characters.
pub fn str_eq(a: &str, b: &str) -> (r: bool)
    ensures
        r == (a@ == b@),
{
    let x = chars_of(a);
    let y = chars_of(b);
    if x.len() != y.len() {
        return false;
    }
    let mut i: usize = 0;
    while i < x.len()
        invariant
            x@ == a@,
            y@ == b@,
            x.len() == y.len(),
            i <= x.len(),
            forall|j: int| 0 <= j < i ==> x@[j] == y@[j],
        decreases x.len() - i,
    {
        if x[i] != y[i] {
            return false;
        }
        i = i + 1;
    }
    assert(x@ =~= y@);
    true
}

/// Whether `s` is one of the quote characters `"` and `'`.
pub open spec fn is_quote(c: char) -> bool {
    c == '"' || c == '\''
}

/// `s` with every `"` and `'` removed.
pub open spec fn without_quotes(s: Seq<char>) -> Seq<char> {
    s.filter(|c: char| !is_quote(c))
}

/// Removes every `"` and `'` from `s`, as `str::replace(['\'', '"'], "")` does.
pub fn remove_quotes(s: &str) -> (r: String)
    ensures
        r@ == without_quotes(s@),
{
    let cs = chars_of(s);
    let mut out = String::new();
    let mut i: usize = 0;
    while i < cs.len()
        invariant
            cs@ == s@,
            i <= cs.len(),
            out@ == without_quotes(cs@.take(i as int)),
        decreases cs.len() - i,
    {
        let c = cs[i];
        proof {
            reveal_with_fuel(Seq::filter, 1);
            assert(cs@.take(i + 1).drop_last() == cs@.take(i as int));
        }
        if c != '"' && c != '\'' {
            push_char(&mut out, c);
        }
        i = i + 1;
    }
    assert(cs@.take(cs.len() as int) == cs@);
    out
}

/// `a` starts with `b`.
pub open spec fn seq_starts_with(a: Seq<char>, b: Seq<char>) -> bool {
    b.len() <= a.len() && a.take(b.len() as int) == b
}

/// `a` ends with `b`.
pub open spec fn seq_ends_with(a: Seq<char>, b: Seq<char>) -> bool {
    b.len() <= a.len() && a.skip(a.len() - b.len()) == b
}

/// `b` occurs in `a` as a contiguous run, starting at `i`.
pub open spec fn occurs_at(a: Seq<char>, b: Seq<char>, i: int) -> bool {
    0 <= i && i + b.len() <= a.len() && a.subrange(i, i + b.len()) == b
}

/// `b` occurs somewhere in `a`.
pub open spec fn seq_contains(a: Seq<char>, b: Seq<char>) -> bool {
    exists|i: int| occurs_at(a, b, i)
}

/// Whether `a` starts with `b`.
pub fn starts_with(a: &str, b: &str) -> (r: bool)
    ensures
        r == seq_starts_with(a@, b@),
{
    let x = chars_of(a);
    let y = chars_of(b);
    if y.len() > x.len() {
        return false;
    }
    let mut i: usize = 0;
    while i < y.len()
        invariant
            x@ == a@,
            y@ == b@,
            y.len() <= x.len(),
            i <= y.len(),
            forall|j: int| 0 <= j < i ==> x@[j] == y@[j],
        decreases y.len() - i,
    {
        if x[i] != y[i] {
            assert(x@.take(y.len() as int)[i as int] != y@[i as int]);
            return false;
        }
        i = i + 1;
    }
    assert(x@.take(y.len() as int) =~= y@);
    true
}

/// Whether `a` ends with `b`.
pub fn ends_with(a: &str, b: &str) -> (r: bool)
    ensures
        r == seq_ends_with(a@, b@),
{
    let x = chars_of(a);
    let y = chars_of(b);
    if y.len() > x.len() {
        return false;
    }
    let off = x.len() - y.len();
    let mut i: usize = 0;
    while i < y.len()
        invariant
            x@ == a@,
            y@ == b@,
            y.len() <= x.len(),
            off == x.len() - y.len(),
            i <= y.len(),
            forall|j: int| 0 <= j < i ==> x@[off + j] == y@[j],
        decreases y.len() - i,
    {
        if x[off + i] != y[i] {
            assert(x@.skip(off as int)[i as int] != y@[i as int]);
            return false;
        }
        i = i + 1;
    }
    assert(x@.skip(off as int) =~= y@);
    true
}

/// Whether `b` occurs in `a`.
pub fn contains_str(a: &str, b: &str) -> (r: bool)
    ensures
        r == seq_contains(a@, b@),
{
    let x = chars_of(a);
    let y = chars_of(b);
    if y.len() > x.len() {
        assert forall|i: int| !occurs_at(a@, b@, i) by {}
        return false;
    }
    let mut i: usize = 0;
    while i <= x.len() - y.len()
        invariant
            x@ == a@,
            y@ == b@,
            y.len() <= x.len(),
            i <= x.len() - y.len() + 1,
            forall|k: int| 0 <= k < i ==> !occurs_at(a@, b@, k),
        decreases x.len() - y.len() + 1 - i,
    {
        let mut j: usize = 0;
        let mut same = true;
        while j < y.len()
            invariant
                x@ == a@,
                y@ == b@,
                y.len() <= x.len(),
                i <= x.len() - y.len(),
                j <= y.len(),
                same == (forall|t: int| 0 <= t < j ==> x@[i + t] == y@[t]),
            decreases y.len() - j,
        {
            if x[i + j] != y[j] {
                same = false;
            }
            j = j + 1;
        }
        if same {
            assert(x@.subrange(i as int, i + y.len()) =~= y@);
            assert(occurs_at(a@, b@, i as int));
            return true;
        }
        assert(!occurs_at(a@, b@, i as int)) by {
            if occurs_at(a@, b@, i as int) {
                let t = choose|t: int| 0 <= t < y.len() && x@[i + t] != y@[t];
                assert(x@.subrange(i as int, i + y.len())[t] == x@[i + t]);
            }
        }
        i = i + 1;
    }
    assert forall|k: int| !occurs_at(a@, b@, k) by {
        if occurs_at(a@, b@, k) {
            assert(k < i);
        }
    }
    false
}

/// `i` is the first place at or after `from` where `b` occurs in `a`.
pub open spec fn first_from(a: Seq<char>, b: Seq<char>, from: int, i: int) -> bool {
    &&& from <= i
    &&& occurs_at(a, b, i)
    &&& forall|k: int| from <= k < i ==> !occurs_at(a, b, k)
}

/// There is one first place.
pub proof fn lemma_first_from_unique(a: Seq<char>, b: Seq<char>, from: int, i: int, j: int)
    requires
        first_from(a, b, from, i),
        first_from(a, b, from, j),
    ensures
        i == j,
{
}

/// The first place at or after `from` where `y` occurs in `x`.
pub fn find_from(x: &Vec<char>, y: &Vec<char>, from: usize) -> (r: Option<usize>)
    ensures
        match r {
            Some(i) => first_from(x@, y@, from as int, i as int),
            None => forall|k: int| from <= k ==> !occurs_at(x@, y@, k),
        },
{
    if y.len() > x.len() || from > x.len() - y.len() {
        assert forall|k: int| from <= k implies !occurs_at(x@, y@, k) by {}
        return None;
    }
    let mut i: usize = from;
    while i <= x.len() - y.len()
        invariant
            y.len() <= x.len(),
            from <= i <= x.len() - y.len() + 1,
            forall|k: int| from <= k < i ==> !occurs_at(x@, y@, k),
        decreases x.len() - y.len() + 1 - i,
    {
        let mut j: usize = 0;
        let mut same = true;
        while j < y.len()
            invariant
                y.len() <= x.len(),
                i <= x.len() - y.len(),
                j <= y.len(),
                same == (forall|t: int| 0 <= t < j ==> x@[i + t] == y@[t]),
            decreases y.len() - j,
        {
            if x[i + j] != y[j] {
                same = false;
            }
            j = j + 1;
        }
        if same {
            assert(x@.subrange(i as int, i + y.len()) =~= y@);
            return Some(i);
        }
        assert(!occurs_at(x@, y@, i as int)) by {
            if occurs_at(x@, y@, i as int) {
                let t = choose|t: int| 0 <= t < y.len() && x@[i + t] != y@[t];
                assert(x@.subrange(i as int, i + y.len())[t] == x@[i + t]);
            }
        }
        i = i + 1;
    }
    assert forall|k: int| from <= k implies !occurs_at(x@, y@, k) by {
        if occurs_at(x@, y@, k) {
            assert(k < i);
        }
    }
    None
}

/// `s` without the first `c` in it, if there is one.
pub open spec fn drop_first(s: Seq<char>, c: char) -> Seq<char> {
    if exists|k: int| first_from(s, seq![c], 0, k) {
        let k = choose|k: int| first_from(s, seq![c], 0, k);
        s.take(k) + s.skip(k + 1)
    } else {
        s
    }
}

/// `s` without the first `c` in it, if there is one.
pub fn remove_first(s: &str, c: char) -> (r: String)
    ensures
        r@ == drop_first(s@, c),
{
    let x = chars_of(s);
    let mut y: Vec<char> = Vec::new();
    y.push(c);
    assert(y@ =~= seq![c]);
    match find_from(&x, &y, 0) {
        Some(k) => {
            proof {
                let w = choose|w: int| first_from(s@, seq![c], 0, w);
                lemma_first_from_unique(s@, seq![c], 0, k as int, w);
            }
            let mut out: Vec<char> = Vec::new();
            let mut i: usize = 0;
            while i < x.len()
                invariant
                    x@ == s@,
                    k < x@.len(),
                    i <= x@.len(),
                    out@ == (if i <= k { x@.take(i as int) } else { x@.take(k as int) + x@.subrange(k + 1, i as int) }),
                decreases x.len() - i,
            {
                if i != k {
                    let ghost prev = out@;
                    out.push(x[i]);
                    proof {
                        if i < k {
                            assert(x@.take(i + 1) =~= x@.take(i as int).push(x@[i as int]));
                        } else {
                            assert(x@.subrange(k + 1, i + 1) =~= x@.subrange(k + 1, i as int).push(x@[i as int]));
                            assert(out@ =~= x@.take(k as int) + x@.subrange(k + 1, i + 1));
                        }
                    }
                } else {
                    assert(x@.subrange(k + 1, k + 1) =~= Seq::<char>::empty());
                    assert(out@ =~= x@.take(k as int) + x@.subrange(k + 1, i + 1));
                }
                i = i + 1;
            }
            assert(x@.subrange(k + 1, x@.len() as int) =~= x@.skip(k + 1));
            string_from_chars(&out)
        },
        None => {
            assert(!exists|k: int| first_from(s@, seq![c], 0, k));
            copy_str(s)
        },
    }
}

/// `a` followed by `b`.
pub fn joined(a: &str, b: &str) -> (r: String)
    ensures
        r@ == a@ + b@,
{
    let mut r = copy_str(a);
    let cs = chars_of(b);
    let mut i: usize = 0;
    while i < cs.len()
        invariant
            i <= cs@.len(),
            cs@ == b@,
            r@ == a@ + b@.take(i as int),
        decreases cs.len() - i,
    {
        push_char(&mut r, cs[i]);
        assert(b@.take(i + 1) =~= b@.take(i as int).push(cs@[i as int]));
        i = i + 1;
    }
    assert(b@.take(i as int) =~= b@);
    r
}

/// How many bytes the UTF-8 encoding of `c` takes.
pub open spec fn char_width(c: char) -> int {
    if (c as u32) <= 0x7F {
        1
    } else if (c as u32) <= 0x7FF {
        2
    } else if (c as u32) <= 0xFFFF {
        3
    } else {
        4
    }
}

/// How many bytes the UTF-8 encoding of `s` takes.
pub open spec fn utf8_len(s: Seq<char>) -> int
    decreases s.len(),
{
    if s.len() == 0 {
        0
    } else {
        utf8_len(s.drop_last()) + char_width(s.last())
    }
}

proof fn lemma_scalar_width(c: char)
    ensures
        vstd::utf8::encode_scalar(c as u32).len() == char_width(c),
{
    vstd::utf8::char_is_scalar(c);
}

proof fn lemma_utf8_len_front(s: Seq<char>)
    requires
        s.len() > 0,
    ensures
        utf8_len(s) == char_width(s[0]) + utf8_len(s.drop_first()),
    decreases s.len(),
{
    assert(utf8_len(s) == utf8_len(s.drop_last()) + char_width(s.last()));
    if s.len() > 1 {
        lemma_utf8_len_front(s.drop_last());
        assert(s.drop_last().drop_first() =~= s.drop_first().drop_last());
        assert(s.drop_first().last() == s.last());
        assert(s.drop_last()[0] == s[0]);
        assert(utf8_len(s.drop_first()) == utf8_len(s.drop_first().drop_last()) + char_width(s.drop_first().last()));
    } else {
        assert(s.drop_last().len() == 0);
        assert(s.drop_first().len() == 0);
        assert(utf8_len(s.drop_last()) == 0);
        assert(utf8_len(s.drop_first()) == 0);
        assert(s.last() == s[0]);
    }
}

/// The length of the UTF-8 encoding of `s` is the sum of its characters'
/// widths.
pub proof fn lemma_utf8_len(s: Seq<char>)
    ensures
        utf8_bytes(s).len() == utf8_len(s),
        utf8_len(s) >= 0,
    decreases s.len(),
{
    if s.len() > 0 {
        lemma_utf8_len(s.drop_first());
        lemma_utf8_len_front(s);
        lemma_scalar_width(s[0]);
    }
}

/// The width of `c` in UTF-8.
pub fn char_width_exec(c: char) -> (w: usize)
    ensures
        w == char_width(c),
{
    let u = c as u32;
    if u <= 0x7F {
        1
    } else if u <= 0x7FF {
        2
    } else if u <= 0xFFFF {
        3
    } else {
        4
    }
}

/// The characters of `s` taken in order, up to and including the one whose
/// encoding starts at byte `end`; all of `s` when no character starts there.
pub open spec fn through_offset(s: Seq<char>, end: int) -> Seq<char>
    decreases s.len(),
{
    if s.len() == 0 {
        Seq::empty()
    } else if end == 0 {
        seq![s[0]]
    } else {
        seq![s[0]] + through_offset(s.drop_first(), end - char_width(s[0]))
    }
}

/// The characters of `s` up to and including the one that starts at byte
/// `end`, as a walk over `str::char_indices` that stops there gives them.
pub fn chars_through(s: &str, end: usize) -> (r: String)
    ensures
        r@ == through_offset(s@, end as int),
{
    let cs = chars_of(s);
    let mut r = String::new();
    let mut off: usize = 0;
    let mut past = false;
    let mut i: usize = 0;
    let mut done = false;
    proof {
        assert(s@.skip(0) =~= s@);
        assert(s@.take(0) =~= Seq::<char>::empty());
    }
    while i < cs.len() && !done
        invariant
            cs@ == s@,
            i <= cs@.len(),
            !past ==> off as int == utf8_len(s@.take(i as int)),
            past ==> utf8_len(s@.take(i as int)) > end,
            done ==> r@ == through_offset(s@, end as int),
            !done ==> r@ + through_offset(s@.skip(i as int), end - utf8_len(s@.take(i as int))) == through_offset(s@, end as int),
        decreases cs.len() - i, (if done { 0int } else { 1int }),
    {
        let c = cs[i];
        let ghost g = utf8_len(s@.take(i as int));
        proof {
            let rest = s@.skip(i as int);
            assert(rest[0] == c);
            assert(rest.drop_first() =~= s@.skip(i + 1));
            let t = s@.take(i + 1);
            assert(t.drop_last() =~= s@.take(i as int));
            assert(t.last() == c);
        }
        let ghost before = r@;
        push_char(&mut r, c);
        if !past && off == end {
            proof {
                assert(through_offset(s@.skip(i as int), 0) == seq![c]);
                assert(r@ =~= before + seq![c]);
            }
            done = true;
        } else {
            proof {
                assert(g != end);
                assert(r@ + through_offset(s@.skip(i + 1), end - g - char_width(c)) =~= before
                    + (seq![c] + through_offset(s@.skip(i + 1), end - g - char_width(c))));
            }
            let w = char_width_exec(c);
            if !past {
                if off > usize::MAX - w {
                    past = true;
                } else {
                    off = off + w;
                }
            }
            i = i + 1;
        }
    }
    proof {
        if !done {
            assert(s@.skip(i as int).len() == 0);
            assert(r@ + Seq::<char>::empty() =~= r@);
        }
    }
    r
}

/// A prefix is no longer in UTF-8 than the whole.
pub proof fn lemma_utf8_len_prefix(s: Seq<char>, k: int)
    requires
        0 <= k <= s.len(),
    ensures
        0 <= utf8_len(s.take(k)) <= utf8_len(s),
    decreases s.len(),
{
    if k < s.len() {
        assert(s.drop_last().take(k) =~= s.take(k));
        lemma_utf8_len_prefix(s.drop_last(), k);
    } else {
        assert(s.take(k) =~= s);
        lemma_utf8_len(s);
    }
}

/// The pieces of `s` between occurrences of `sep`, as `str::split` with a
/// character gives them: always at least one piece.
pub open spec fn split_on(s: Seq<char>, sep: char) -> Seq<Seq<char>>
    decreases s.len(),
{
    if s.len() == 0 {
        seq![Seq::empty()]
    } else {
        let p = split_on(s.drop_last(), sep);
        if s.last() == sep {
            p.push(Seq::empty())
        } else {
            p.update(p.len() - 1, p.last().push(s.last()))
        }
    }
}

/// Splitting always gives at least one piece.
pub proof fn lemma_split_nonempty(s: Seq<char>, sep: char)
    ensures
        split_on(s, sep).len() >= 1,
    decreases s.len(),
{
    if s.len() > 0 {
        lemma_split_nonempty(s.drop_last(), sep);
    }
}

/// The pieces of `s` between occurrences of `sep`.
pub fn split_by(s: &str, sep: char) -> (r: Vec<String>)
    ensures
        r@.map_values(|x: String| x@) == split_on(s@, sep),
{
    let cs = chars_of(s);
    let mut r: Vec<String> = Vec::new();
    r.push(String::new());
    let mut i: usize = 0;
    proof {
        assert(s@.take(0) =~= Seq::<char>::empty());
        assert(r@.map_values(|x: String| x@) =~= seq![Seq::<char>::empty()]);
    }
    while i < cs.len()
        invariant
            cs@ == s@,
            i <= cs@.len(),
            r@.map_values(|x: String| x@) == split_on(s@.take(i as int), sep),
            r@.len() >= 1,
        decreases cs.len() - i,
    {
        let c = cs[i];
        let ghost prev = r@.map_values(|x: String| x@);
        proof {
            let t = s@.take(i + 1);
            assert(t.drop_last() =~= s@.take(i as int));
            assert(t.last() == c);
            lemma_split_nonempty(s@.take(i as int), sep);
        }
        if c == sep {
            r.push(String::new());
            proof {
                assert(r@.map_values(|x: String| x@) =~= prev.push(Seq::empty()));
            }
        } else {
            let mut last = r.pop().unwrap();
            push_char(&mut last, c);
            r.push(last);
            proof {
                assert(r@.map_values(|x: String| x@) =~= prev.update(prev.len() - 1, prev.last().push(c)));
            }
        }
        i = i + 1;
    }
    proof {
        assert(s@.take(i as int) =~= s@);
    }
    r
}

/// The character of a decimal digit.
pub open spec fn digit_char(d: int) -> char {
    if d == 0 { '0' } else if d == 1 { '1' } else if d == 2 { '2' } else if d == 3 { '3' } else if d == 4 { '4' }
    else if d == 5 { '5' } else if d == 6 { '6' } else if d == 7 { '7' } else if d == 8 { '8' } else { '9' }
}

/// The decimal digits of `n`, as `format!("{}", n)` writes them.
pub open spec fn decimal(n: nat) -> Seq<char>
    decreases n,
{
    if n < 10 {
        seq![digit_char(n as int)]
    } else {
        decimal(n / 10).push(digit_char((n % 10) as int))
    }
}

fn digit(d: u32) -> (c: char)
    requires
        d < 10,
    ensures
        c == digit_char(d as int),
{
    if d == 0 { '0' } else if d == 1 { '1' } else if d == 2 { '2' } else if d == 3 { '3' } else if d == 4 { '4' }
    else if d == 5 { '5' } else if d == 6 { '6' } else if d == 7 { '7' } else if d == 8 { '8' } else { '9' }
}

/// The decimal digits of `n`.
pub fn decimal_string(n: u32) -> (s: String)
    ensures
        s@ == decimal(n as nat),
    decreases n,
{
    if n < 10 {
        let mut s = String::new();
        push_char(&mut s, digit(n));
        assert(s@ =~= seq![digit_char(n as int)]);
        s
    } else {
        let mut s = decimal_string(n / 10);
        push_char(&mut s, digit(n % 10));
        s
    }
}

/// The value of a run of decimal digits.
pub open spec fn digits_value(s: Seq<char>) -> nat
    decreases s.len(),
{
    if s.len() == 0 {
        0
    } else {
        digits_value(s.drop_last()) * 10 + ((s.last() as u32) - 48) as nat
    }
}

/// What `u32`'s `FromStr` accepts, as std documents it: an optional `+`
/// followed by one or more decimal digits, of a value that fits.
pub open spec fn u32_literal(s: Seq<char>) -> bool {
    let d = if s.len() > 0 && s[0] == '+' { s.drop_first() } else { s };
    &&& d.len() > 0
    &&& forall|i: int| 0 <= i < d.len() ==> '0' <= #[trigger] d[i] <= '9'
    &&& digits_value(d) <= u32::MAX
}

/// Calls `str::parse::<u32>` of std and tells whether it succeeds: exactly
/// when the text is an optional `+` and decimal digits of a value that fits
/// in a `u32`, as std's documentation of `from_str_radix` says.
#[verifier::external_body]
pub(crate) fn parses_as_u32(s: &str) -> (b: bool)
    ensures
        b == u32_literal(s@),
{
    s.parse::<u32>().is_ok()
}

} // verus!
