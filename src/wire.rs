use vstd::prelude::*;
use vstd::slice::slice_to_vec;

verus! {

broadcast use vstd::string::group_string_axioms;

/// Bytes of the request syntax.
pub const SP: u8 = 0x20;
pub const TAB: u8 = 0x09;
pub const LF: u8 = 0x0a;
pub const VT: u8 = 0x0b;
pub const FF: u8 = 0x0c;
pub const CR: u8 = 0x0d;
pub const SLASH: u8 = 0x2f;
pub const ZERO: u8 = 0x30;
pub const NINE: u8 = 0x39;
pub const PLUS: u8 = 0x2b;
pub const MINUS: u8 = 0x2d;

/// The bytes of an ASCII text, one byte per character.
pub open spec fn ascii_bytes(s: Seq<char>) -> Seq<u8> {
    s.map_values(|c: char| c as u8)
}

/// `p` is a prefix of `s`.
pub open spec fn has_prefix(s: Seq<u8>, p: Seq<u8>) -> bool {
    p.len() <= s.len() && s.subrange(0, p.len() as int) == p
}

/// Bytes of an ASCII string literal.
fn literal_bytes(s: &'static str) -> (r: &'static [u8])
    requires
        s.is_ascii(),
    ensures
        r@ == ascii_bytes(s@),
{
    let r = s.as_bytes();
    assert(r@ =~= ascii_bytes(s@));
    r
}

/// Whether `s` starts with `p`.
pub fn starts_with(s: &[u8], p: &[u8]) -> (r: bool)
    ensures
        r == has_prefix(s@, p@),
{
    if p.len() > s.len() {
        return false;
    }
    let mut i: usize = 0;
    while i < p.len()
        invariant
            p@.len() <= s@.len(),
            i <= p@.len(),
            forall|j: int| 0 <= j < i ==> s@[j] == p@[j],
        decreases p@.len() - i,
    {
        if s[i] != p[i] {
            return false;
        }
        i = i + 1;
    }
    assert(s@.subrange(0, p@.len() as int) =~= p@);
    true
}

/// The operation a request asks for.
#[derive(Clone, Copy, Debug, PartialEq, Eq, Structural)]
pub enum Selector {
    Create,
    ReadOne,
    ReadAll,
    Update,
    Delete,
    Unrecognized,
}

/// The selector of a request: the first of the five prefixes that the
/// request starts with, tested in a fixed order.
pub open spec fn selector_of(r: Seq<u8>) -> Selector {
    if has_prefix(r, ascii_bytes("POST /users"@)) {
        Selector::Create
    } else if has_prefix(r, ascii_bytes("GET /users/"@)) {
        Selector::ReadOne
    } else if has_prefix(r, ascii_bytes("GET /users"@)) {
        Selector::ReadAll
    } else if has_prefix(r, ascii_bytes("PUT /users"@)) {
        Selector::Update
    } else if has_prefix(r, ascii_bytes("DELETE /users/"@)) {
        Selector::Delete
    } else {
        Selector::Unrecognized
    }
}

/// Classifies a request by its leading prefix.
pub fn classify(request: &[u8]) -> (s: Selector)
    ensures
        s == selector_of(request@),
{
    proof {
        reveal_strlit("POST /users");
        reveal_strlit("GET /users/");
        reveal_strlit("GET /users");
        reveal_strlit("PUT /users");
        reveal_strlit("DELETE /users/");
    }
    if starts_with(request, literal_bytes("POST /users")) {
        Selector::Create
    } else if starts_with(request, literal_bytes("GET /users/")) {
        Selector::ReadOne
    } else if starts_with(request, literal_bytes("GET /users")) {
        Selector::ReadAll
    } else if starts_with(request, literal_bytes("PUT /users")) {
        Selector::Update
    } else if starts_with(request, literal_bytes("DELETE /users/")) {
        Selector::Delete
    } else {
        Selector::Unrecognized
    }
}

/// ASCII whitespace: space, tab, line feed, vertical tab, form feed,
/// carriage return.
pub open spec fn is_space(b: u8) -> bool {
    b == SP || b == TAB || b == LF || b == VT || b == FF || b == CR
}

fn space(b: u8) -> (r: bool)
    ensures
        r == is_space(b),
{
    b == SP || b == TAB || b == LF || b == VT || b == FF || b == CR
}

/// The first index in `[i, end)` that holds byte `b`, or `end`.
pub open spec fn find_byte(s: Seq<u8>, b: u8, i: int, end: int) -> int
    decreases end - i,
{
    if i >= end {
        end
    } else if s[i] == b {
        i
    } else {
        find_byte(s, b, i + 1, end)
    }
}

/// The first index in `[i, end)` whose byte is whitespace exactly when
/// `want` is, or `end`.
pub open spec fn find_space(s: Seq<u8>, want: bool, i: int, end: int) -> int
    decreases end - i,
{
    if i >= end {
        end
    } else if is_space(s[i]) == want {
        i
    } else {
        find_space(s, want, i + 1, end)
    }
}

/// Where the third `/`-separated segment of `r` begins, or the length of `r`
/// when `r` holds fewer than two slashes.
pub open spec fn segment_start(r: Seq<u8>) -> int {
    let first = find_byte(r, SLASH, 0, r.len() as int);
    if first >= r.len() {
        r.len() as int
    } else {
        let second = find_byte(r, SLASH, first + 1, r.len() as int);
        if second >= r.len() {
            r.len() as int
        } else {
            second + 1
        }
    }
}

/// The identifier text of a request: in the third `/`-separated segment,
/// the first whitespace-delimited token (empty when there is none).
pub open spec fn id_token(r: Seq<u8>) -> Seq<u8> {
    let start = segment_start(r);
    let end = find_byte(r, SLASH, start, r.len() as int);
    let t0 = find_space(r, false, start, end);
    let t1 = find_space(r, true, t0, end);
    r.subrange(t0, t1)
}

/// The value of a run of decimal digits.
pub open spec fn digits_value(d: Seq<u8>) -> int
    decreases d.len(),
{
    if d.len() == 0 {
        0
    } else {
        digits_value(d.drop_last()) * 10 + (d.last() - ZERO)
    }
}

pub open spec fn all_digits(d: Seq<u8>) -> bool {
    forall|i: int| 0 <= i < d.len() ==> ZERO <= #[trigger] d[i] <= NINE
}

/// The integer that a text spells: an optional `+` or `-`, then one or more
/// decimal digits.
pub open spec fn int_of(t: Seq<u8>) -> Option<int> {
    if t.len() > 0 && (t[0] == PLUS || t[0] == MINUS) {
        let d = t.subrange(1, t.len() as int);
        if d.len() > 0 && all_digits(d) {
            Some(if t[0] == MINUS { -digits_value(d) } else { digits_value(d) })
        } else {
            None
        }
    } else if t.len() > 0 && all_digits(t) {
        Some(digits_value(t))
    } else {
        None
    }
}

/// The `i32` that a text spells, if it spells one in range.
pub open spec fn i32_of(t: Seq<u8>) -> Option<i32> {
    match int_of(t) {
        Some(v) => if i32::MIN <= v <= i32::MAX {
            Some(v as i32)
        } else {
            None
        },
        None => None,
    }
}

/// The identifier of a request, if its identifier text is an `i32`.
pub open spec fn id_of(r: Seq<u8>) -> Option<i32> {
    i32_of(id_token(r))
}

/// The four bytes that end the preamble of a request: CR LF CR LF.
pub open spec fn blank_line_at(r: Seq<u8>, i: int) -> bool {
    0 <= i && i + 4 <= r.len() && r[i] == CR && r[i + 1] == LF && r[i + 2] == CR
        && r[i + 3] == LF
}

/// The first index at or after `i` where the blank line begins, or the
/// length of `r`.
pub open spec fn find_blank_line(r: Seq<u8>, i: int) -> int
    decreases r.len() - i,
{
    if i >= r.len() {
        r.len() as int
    } else if blank_line_at(r, i) {
        i
    } else {
        find_blank_line(r, i + 1)
    }
}

/// The payload of a request: all that follows the first blank line, or
/// nothing when there is no blank line.
pub open spec fn body_of(r: Seq<u8>) -> Seq<u8> {
    let k = find_blank_line(r, 0);
    if k >= r.len() {
        Seq::empty()
    } else {
        r.subrange(k + 4, r.len() as int)
    }
}

fn find_byte_exec(s: &[u8], b: u8, from: usize, end: usize) -> (r: usize)
    requires
        from <= end <= s@.len(),
    ensures
        r == find_byte(s@, b, from as int, end as int),
        from <= r <= end,
{
    let mut i = from;
    while i < end
        invariant
            from <= i <= end <= s@.len(),
            find_byte(s@, b, i as int, end as int) == find_byte(s@, b, from as int, end as int),
        decreases end - i,
    {
        if s[i] == b {
            return i;
        }
        i = i + 1;
    }
    i
}

fn find_space_exec(s: &[u8], want: bool, from: usize, end: usize) -> (r: usize)
    requires
        from <= end <= s@.len(),
    ensures
        r == find_space(s@, want, from as int, end as int),
        from <= r <= end,
{
    let mut i = from;
    while i < end
        invariant
            from <= i <= end <= s@.len(),
            find_space(s@, want, i as int, end as int) == find_space(
                s@,
                want,
                from as int,
                end as int,
            ),
        decreases end - i,
    {
        if space(s[i]) == want {
            return i;
        }
        i = i + 1;
    }
    i
}

proof fn lemma_find_byte_bounds(s: Seq<u8>, b: u8, i: int, end: int)
    requires
        i <= end,
    ensures
        i <= find_byte(s, b, i, end) <= end,
    decreases end - i,
{
    if i < end && s[i] != b {
        lemma_find_byte_bounds(s, b, i + 1, end);
    }
}

proof fn lemma_find_space_bounds(s: Seq<u8>, want: bool, i: int, end: int)
    requires
        i <= end,
    ensures
        i <= find_space(s, want, i, end) <= end,
    decreases end - i,
{
    if i < end && is_space(s[i]) != want {
        lemma_find_space_bounds(s, want, i + 1, end);
    }
}

/// The identifier text of a request, as bounds into it.
fn id_token_bounds(request: &[u8]) -> (r: (usize, usize))
    ensures
        r.0 <= r.1 <= request@.len(),
        request@.subrange(r.0 as int, r.1 as int) == id_token(request@),
{
    let n = request.len();
    let first = find_byte_exec(request, SLASH, 0, n);
    let start = if first >= n {
        n
    } else {
        let second = find_byte_exec(request, SLASH, first + 1, n);
        if second >= n {
            n
        } else {
            second + 1
        }
    };
    assert(start == segment_start(request@));
    let end = find_byte_exec(request, SLASH, start, n);
    let t0 = find_space_exec(request, false, start, end);
    let t1 = find_space_exec(request, true, t0, end);
    (t0, t1)
}

proof fn lemma_digits_value_nonneg(d: Seq<u8>)
    requires
        all_digits(d),
    ensures
        digits_value(d) >= 0,
    decreases d.len(),
{
    if d.len() > 0 {
        assert(all_digits(d.drop_last()));
        lemma_digits_value_nonneg(d.drop_last());
    }
}

/// An upper bound past every `i32` magnitude: accumulation stops there.
const CAP: u64 = 2147483649;

/// Value of the digits `t[from..]`, capped at `CAP`, or `None` when one of
/// them is not a digit.
fn capped_digits(t: &[u8], from: usize) -> (r: Option<u64>)
    requires
        from <= t@.len(),
    ensures
        r is Some <==> all_digits(t@.subrange(from as int, t@.len() as int)),
        r matches Some(v) ==> {
            let x = digits_value(t@.subrange(from as int, t@.len() as int));
            &&& v <= CAP
            &&& (x < CAP ==> v == x)
            &&& (x >= CAP ==> v == CAP)
        },
{
    let mut acc: u64 = 0;
    let mut i = from;
    while i < t.len()
        invariant
            from <= i <= t@.len(),
            all_digits(t@.subrange(from as int, i as int)),
            acc <= CAP,
            ({
                let x = digits_value(t@.subrange(from as int, i as int));
                &&& (x < CAP ==> acc == x)
                &&& (x >= CAP ==> acc == CAP)
            }),
        decreases t@.len() - i,
    {
        let c = t[i];
        if c < ZERO || c > NINE {
            assert(t@.subrange(from as int, t@.len() as int)[i - from] == c);
            return None;
        }
        let ghost prev = t@.subrange(from as int, i as int);
        let ghost next = t@.subrange(from as int, i + 1);
        assert(next.drop_last() =~= prev);
        assert(next =~= prev.push(c));
        assert(all_digits(next)) by {
            assert forall|j: int| 0 <= j < next.len() implies ZERO <= #[trigger] next[j] <= NINE by {
                if j < prev.len() {
                    assert(next[j] == prev[j]);
                }
            }
        }
        proof {
            lemma_digits_value_nonneg(prev);
        }
        let d = (c - ZERO) as u64;
        assert(digits_value(next) == digits_value(prev) * 10 + d);
        if acc >= CAP {
            assert(digits_value(prev) >= CAP);
            assert(digits_value(next) >= CAP) by (nonlinear_arith)
                requires
                    digits_value(next) == digits_value(prev) * 10 + d,
                    digits_value(prev) >= CAP,
                    d >= 0,
            ;
        } else {
            let v = acc * 10 + d;
            acc = if v >= CAP { CAP } else { v };
        }
        i = i + 1;
    }
    assert(t@.subrange(from as int, i as int) =~= t@.subrange(from as int, t@.len() as int));
    Some(acc)
}

/// Parses an `i32` written in decimal, with an optional sign.
pub fn parse_i32(t: &[u8]) -> (r: Option<i32>)
    ensures
        r == i32_of(t@),
{
    if t.len() == 0 {
        return None;
    }
    let signed = t[0] == PLUS || t[0] == MINUS;
    let from: usize = if signed { 1 } else { 0 };
    assert(from == 0 ==> t@.subrange(0, t@.len() as int) =~= t@);
    if from == t.len() {
        return None;
    }
    match capped_digits(t, from) {
        None => None,
        Some(v) => {
            proof {
                lemma_digits_value_nonneg(t@.subrange(from as int, t@.len() as int));
            }
            if t[0] == MINUS {
                if v <= 2147483648 {
                    Some((0 - (v as i64)) as i32)
                } else {
                    None
                }
            } else {
                if v <= 2147483647 {
                    Some(v as i32)
                } else {
                    None
                }
            }
        },
    }
}

/// Extracts the record identifier of a request.
pub fn get_id(request: &[u8]) -> (r: Option<i32>)
    ensures
        r == id_of(request@),
{
    let (a, b) = id_token_bounds(request);
    parse_i32(&request[a..b])
}

/// Extracts the payload of a request: what follows the first blank line.
pub fn get_body(request: &[u8]) -> (r: Vec<u8>)
    ensures
        r@ == body_of(request@),
{
    let n = request.len();
    let mut i: usize = 0;
    while i < n
        invariant
            i <= n == request@.len(),
            find_blank_line(request@, i as int) == find_blank_line(request@, 0),
        decreases n - i,
    {
        if 4 <= n - i && request[i] == CR && request[i + 1] == LF && request[i + 2] == CR
            && request[i + 3] == LF {
            return slice_to_vec(&request[i + 4..n]);
        }
        i = i + 1;
    }
    Vec::new()
}

} // verus!
