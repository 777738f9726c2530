use vstd::prelude::*;

verus! {

/// The position of the first `:` in `s`, if there is one.
pub open spec fn first_colon(s: Seq<char>) -> Option<int>
    decreases s.len(),
{
    if s.len() == 0 {
        None
    } else if s[0] == ':' {
        Some(0)
    } else {
        match first_colon(s.drop_first()) {
            Some(i) => Some(i + 1),
            None => None,
        }
    }
}

/// White space in Unicode's sense (the `White_Space` property).
pub open spec fn is_white_space(c: char) -> bool {
    let n = c as u32;
    ||| 0x9 <= n <= 0xd
    ||| n == 0x20
    ||| n == 0x85
    ||| n == 0xa0
    ||| n == 0x1680
    ||| 0x2000 <= n <= 0x200a
    ||| n == 0x2028
    ||| n == 0x2029
    ||| n == 0x202f
    ||| n == 0x205f
    ||| n == 0x3000
}

/// `s` without its leading white space.
pub open spec fn trim_start_of(s: Seq<char>) -> Seq<char>
    decreases s.len(),
{
    if s.len() > 0 && is_white_space(s[0]) {
        trim_start_of(s.drop_first())
    } else {
        s
    }
}

/// `s` without its trailing white space.
pub open spec fn trim_end_of(s: Seq<char>) -> Seq<char>
    decreases s.len(),
{
    if s.len() > 0 && is_white_space(s.last()) {
        trim_end_of(s.drop_last())
    } else {
        s
    }
}

/// `s` without the white space at its two ends.
pub open spec fn trim_of(s: Seq<char>) -> Seq<char> {
    trim_end_of(trim_start_of(s))
}

/// Relies on `str::split_once` with a `char` pattern: the text before the
/// first `:` and the text after it, or `None` when there is no `:`.
#[verifier::external_body]
fn split_at_colon(s: &str) -> (r: Option<(&str, &str)>)
    ensures
        r is None <==> first_colon(s@) is None,
        r matches Some((k, v)) ==> {
            let i = first_colon(s@)->0;
            k@ == s@.take(i) && v@ == s@.skip(i + 1)
        },
{
    s.split_once(':')
}

/// Relies on `str::trim`: the text without leading and trailing white
/// space, white space being Unicode's `White_Space` property.
#[verifier::external_body]
fn trimmed(s: &str) -> (r: String)
    ensures
        r@ == trim_of(s@),
{
    s.trim().to_string()
}

/// What a header argument `K:V` stands for: the name and the value, each
/// trimmed, split at the first `:`; `None` when the argument has no `:`.
pub open spec fn header_of(s: Seq<char>) -> Option<(Seq<char>, Seq<char>)> {
    match first_colon(s) {
        Some(i) => Some((trim_of(s.take(i)), trim_of(s.skip(i + 1)))),
        None => None,
    }
}

/// A header given on the command line, split into name and value.
#[derive(Debug)]
pub struct Header {
    pub name: String,
    pub value: String,
}

/// Reads one header argument of the form `K:V`.
pub fn parse_header(s: &str) -> (r: Option<Header>)
    ensures
        r is None <==> header_of(s@) is None,
        r matches Some(h) ==> header_of(s@) == Some((h.name@, h.value@)),
{
    match split_at_colon(s) {
        Some((k, v)) => Some(Header { name: trimmed(k), value: trimmed(v) }),
        None => None,
    }
}

/// Reads every header argument, in order. The first one without a `:`
/// makes the whole list malformed: its position is returned, and no header
/// is used.
pub fn parse_headers(args: &Vec<String>) -> (r: Result<Vec<Header>, usize>)
    ensures
        r matches Ok(hs) ==> {
            &&& hs@.len() == args@.len()
            &&& forall|j: int|
                0 <= j < args@.len() ==> header_of(#[trigger] args@[j]@) == Some(
                    (hs@[j].name@, hs@[j].value@),
                )
        },
        r matches Err(bad) ==> {
            &&& bad < args@.len()
            &&& header_of(args@[bad as int]@) is None
            &&& forall|j: int| 0 <= j < bad ==> #[trigger] header_of(args@[j]@) is Some
        },
        r is Ok <==> forall|j: int| 0 <= j < args@.len() ==> #[trigger] header_of(args@[j]@) is Some,
{
    let mut out: Vec<Header> = Vec::new();
    let mut i: usize = 0;
    while i < args.len()
        invariant
            i <= args@.len(),
            out@.len() == i,
            forall|j: int|
                0 <= j < i ==> header_of(#[trigger] args@[j]@) == Some(
                    (out@[j].name@, out@[j].value@),
                ),
        decreases args@.len() - i,
    {
        match parse_header(args[i].as_str()) {
            Some(h) => out.push(h),
            None => return Err(i),
        }
        i = i + 1;
    }
    Ok(out)
}

} // verus!
