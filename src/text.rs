use vstd::prelude::*;
use vstd::string::StringSliceAdditionalSpecFns;
use crate::cache::is_digit;

verus! {

/// Characters of Unicode's White_Space property.
pub open spec fn is_white_space(c: char) -> bool {
    let u = c as u32;
    ||| u == 0x20
    ||| 0x09 <= u <= 0x0d
    ||| u == 0x85
    ||| u == 0xa0
    ||| u == 0x1680
    ||| 0x2000 <= u <= 0x200a
    ||| u == 0x2028
    ||| u == 0x2029
    ||| u == 0x202f
    ||| u == 0x205f
    ||| u == 0x3000
}

pub open spec fn trim_start(s: Seq<char>) -> Seq<char>
    decreases s.len(),
{
    if s.len() > 0 && is_white_space(s[0]) {
        trim_start(s.drop_first())
    } else {
        s
    }
}

pub open spec fn trim_end(s: Seq<char>) -> Seq<char>
    decreases s.len(),
{
    if s.len() > 0 && is_white_space(s.last()) {
        trim_end(s.drop_last())
    } else {
        s
    }
}

/// The text without leading and trailing white space.
pub open spec fn trimmed(s: Seq<char>) -> Seq<char> {
    trim_end(trim_start(s))
}

/// Relies on `str::trim`: the slice without leading and trailing characters
/// of the White_Space property.
#[verifier::external_body]
fn trim(s: &str) -> (r: &str)
    ensures
        r@ == trimmed(s@),
{
    s.trim()
}

pub open spec fn comma_to_dot(b: Seq<u8>) -> Seq<u8> {
    b.map_values(|x: u8| if x == 44 { 46u8 } else { x })
}

pub open spec fn is_numeric_byte(x: u8) -> bool {
    is_digit(x) || x == 46 || x == 44
}

/// The digits, dots and commas of a text, in order.
pub open spec fn numeric_bytes(b: Seq<u8>) -> Seq<u8> {
    b.filter(|x: u8| is_numeric_byte(x))
}

/// The spellings under which a tempo written in a tag is read, tried in
/// order: the trimmed text as it is; with decimal commas turned into dots;
/// and its digits, dots and commas alone, commas again as dots (absent when
/// there are none).
pub struct BpmTextForms {
    pub exact: Vec<u8>,
    pub comma_decimal: Vec<u8>,
    pub digits_only: Option<Vec<u8>>,
}

fn commas_to_dots(b: &[u8]) -> (r: Vec<u8>)
    ensures
        r@ == comma_to_dot(b@),
{
    let mut r: Vec<u8> = Vec::new();
    let mut i: usize = 0;
    while i < b.len()
        invariant
            i <= b@.len(),
            r@ == comma_to_dot(b@.subrange(0, i as int)),
        decreases b@.len() - i,
    {
        let x = b[i];
        r.push(if x == 44u8 { 46u8 } else { x });
        i += 1;
        assert(r@ =~= comma_to_dot(b@.subrange(0, i as int)));
    }
    assert(b@.subrange(0, b@.len() as int) =~= b@);
    r
}

fn keep_numeric(b: &[u8]) -> (r: Vec<u8>)
    ensures
        r@ == numeric_bytes(b@),
{
    let mut r: Vec<u8> = Vec::new();
    let mut i: usize = 0;
    while i < b.len()
        invariant
            i <= b@.len(),
            r@ == numeric_bytes(b@.subrange(0, i as int)),
        decreases b@.len() - i,
    {
        let x = b[i];
        let ghost before = b@.subrange(0, i as int);
        if (48u8 <= x && x <= 57u8) || x == 46u8 || x == 44u8 {
            r.push(x);
        }
        i += 1;
        proof {
            let after = b@.subrange(0, i as int);
            assert(after.drop_last() =~= before);
            reveal(Seq::filter);
        }
    }
    assert(b@.subrange(0, b@.len() as int) =~= b@);
    r
}

/// The spellings to read a tempo from, for the text of a tag; absent when
/// the text is blank.
pub fn bpm_text_forms(input: &str) -> (r: Option<BpmTextForms>)
    ensures
        ({
            let t = trimmed(input@);
            let b = vstd::utf8::encode_utf8(t);
            &&& t.len() == 0 ==> r is None
            &&& t.len() > 0 ==> r is Some && r->0.exact@ == b && r->0.comma_decimal@
                == comma_to_dot(b) && (numeric_bytes(b).len() == 0 ==> r->0.digits_only is None)
                && (numeric_bytes(b).len() > 0 ==> r->0.digits_only is Some
                && r->0.digits_only->0@ == comma_to_dot(numeric_bytes(b)))
        }),
{
    let t = trim(input);
    if t.is_empty() {
        return None;
    }
    let b = t.as_bytes();
    let mut exact: Vec<u8> = Vec::new();
    let mut i: usize = 0;
    while i < b.len()
        invariant
            i <= b@.len(),
            exact@ == b@.subrange(0, i as int),
        decreases b@.len() - i,
    {
        exact.push(b[i]);
        i += 1;
        assert(exact@ =~= b@.subrange(0, i as int));
    }
    assert(b@.subrange(0, b@.len() as int) =~= b@);
    let comma_decimal = commas_to_dots(b);
    let numeric = keep_numeric(b);
    let digits_only = if numeric.len() == 0 {
        None
    } else {
        Some(commas_to_dots(numeric.as_slice()))
    };
    Some(BpmTextForms { exact, comma_decimal, digits_only })
}

/// Whether a path given by the host is blank.
pub fn is_blank(text: &str) -> (r: bool)
    ensures
        r == (trimmed(text@).len() == 0),
{
    trim(text).is_empty()
}

pub open spec fn ascii_lower(x: u8) -> u8 {
    if 65 <= x <= 90 {
        (x + 32) as u8
    } else {
        x
    }
}

/// Equal texts up to the case of ASCII letters, compared byte by byte.
pub open spec fn same_ignoring_ascii_case(a: Seq<u8>, b: Seq<u8>) -> bool {
    a.len() == b.len() && forall|i: int| 0 <= i < a.len() ==> ascii_lower(#[trigger] a[i]) == ascii_lower(b[i])
}

/// The custom tag keys that may hold a tempo: `BPM`, `TBPM`, `TEMPO`,
/// `TMPO` and `TMP0`.
pub open spec fn bpm_alias(k: int) -> Seq<u8> {
    if k == 0 {
        seq![66u8, 80, 77]
    } else if k == 1 {
        seq![84u8, 66, 80, 77]
    } else if k == 2 {
        seq![84u8, 69, 77, 80, 79]
    } else if k == 3 {
        seq![84u8, 77, 80, 79]
    } else {
        seq![84u8, 77, 80, 48]
    }
}

pub const BPM_ALIAS_COUNT: usize = 5;

fn alias_bytes(k: usize) -> (r: Vec<u8>)
    requires
        k < BPM_ALIAS_COUNT,
    ensures
        r@ == bpm_alias(k as int),
{
    let r = if k == 0 {
        vec![66u8, 80, 77]
    } else if k == 1 {
        vec![84u8, 66, 80, 77]
    } else if k == 2 {
        vec![84u8, 69, 77, 80, 79]
    } else if k == 3 {
        vec![84u8, 77, 80, 79]
    } else {
        vec![84u8, 77, 80, 48]
    };
    assert(r@ =~= bpm_alias(k as int));
    r
}

fn lower_byte(x: u8) -> (r: u8)
    ensures
        r == ascii_lower(x),
{
    if 65u8 <= x && x <= 90u8 {
        x + 32
    } else {
        x
    }
}

fn equal_ignoring_ascii_case(a: &[u8], b: &[u8]) -> (r: bool)
    ensures
        r == same_ignoring_ascii_case(a@, b@),
{
    if a.len() != b.len() {
        return false;
    }
    let mut i: usize = 0;
    while i < a.len()
        invariant
            a@.len() == b@.len(),
            i <= a@.len(),
            forall|j: int| 0 <= j < i ==> ascii_lower(#[trigger] a@[j]) == ascii_lower(b@[j]),
        decreases a@.len() - i,
    {
        if lower_byte(a[i]) != lower_byte(b[i]) {
            return false;
        }
        i += 1;
    }
    true
}

/// Whether a custom tag key names a tempo field, ignoring ASCII case.
pub fn is_bpm_alias(key: &str) -> (r: bool)
    ensures
        r == exists|k: int| 0 <= k < BPM_ALIAS_COUNT && same_ignoring_ascii_case(key.spec_bytes(), #[trigger] bpm_alias(k)),
{
    let b = key.as_bytes();
    let mut k: usize = 0;
    while k < BPM_ALIAS_COUNT
        invariant
            b@ == key.spec_bytes(),
            k <= BPM_ALIAS_COUNT,
            forall|j: int| 0 <= j < k ==> !same_ignoring_ascii_case(b@, #[trigger] bpm_alias(j)),
        decreases BPM_ALIAS_COUNT - k,
    {
        let alias = alias_bytes(k);
        if equal_ignoring_ascii_case(b, alias.as_slice()) {
            return true;
        }
        k += 1;
    }
    false
}

} // verus!
